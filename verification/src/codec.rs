use crate::error::{EclipseError, Result};
use crate::text::{decimal, push_decimal, push_str};
use vstd::prelude::*;
use vstd::utf8::encode_utf8;

verus! {

/// A versioned, labelled payload.
#[derive(Debug, PartialEq, Eq)]
pub struct Envelope<T> {
    pub version: u32,
    pub kind: String,
    pub payload: T,
}

impl<T: Clone> Clone for Envelope<T> {
    /// A copy with the same version and kind, and the payload's own clone.
    fn clone(&self) -> (r: Self)
        ensures
            r.version == self.version,
            r.kind == self.kind,
            cloned::<T>(self.payload, r.payload),
    {
        Envelope { version: self.version, kind: self.kind.clone(), payload: self.payload.clone() }
    }
}

impl<T> Envelope<T> {
    pub fn new(kind: &str, payload: T) -> (r: Envelope<T>)
        ensures
            r.version == 1,
            r.kind@ == kind@,
            r.payload == payload,
    {
        Envelope { version: 1, kind: kind.to_owned(), payload }
    }

    /// The same envelope around `f` applied to the payload.
    pub fn map<U, F: FnOnce(T) -> U>(self, f: F) -> (r: Envelope<U>)
        requires
            f.requires((self.payload,)),
        ensures
            r.version == self.version,
            r.kind == self.kind,
            f.ensures((self.payload,), r.payload),
    {
        Envelope { version: self.version, kind: self.kind, payload: f(self.payload) }
    }
}

/// The message that refuses an envelope of another kind.
pub open spec fn kind_message(expected: Seq<char>, got: Seq<char>) -> Seq<char> {
    "expected envelope kind "@ + expected + ", got "@ + got
}

/// The payload of an envelope whose kind is `expected_kind`.
pub fn envelope_payload<T>(envelope: Envelope<T>, expected_kind: &str) -> (r: Result<T>)
    ensures
        envelope.kind@ == expected_kind@ ==> r == Ok::<T, EclipseError>(envelope.payload),
        envelope.kind@ != expected_kind@ ==> (r matches Err(EclipseError::InvalidScenario(m))
            && m@ == kind_message(expected_kind@, envelope.kind@)),
{
    if crate::text::compare_str(envelope.kind.as_str(), expected_kind) != 0 {
        let mut m = String::new();
        push_str(&mut m, "expected envelope kind ");
        push_str(&mut m, expected_kind);
        push_str(&mut m, ", got ");
        push_str(&mut m, envelope.kind.as_str());
        return Err(EclipseError::InvalidScenario(m));
    }
    Ok(envelope.payload)
}

/// A named digest value.
#[derive(Debug, PartialEq, Eq)]
pub struct Digest {
    pub algorithm: String,
    pub value: String,
}

impl Clone for Digest {
    fn clone(&self) -> (r: Self)
        ensures
            r == *self,
    {
        Digest { algorithm: self.algorithm.clone(), value: self.value.clone() }
    }
}

pub const DIGEST_SEED: u128 = 0x6a09_e667_f3bc_c908u128;
pub const DIGEST_PRIME: u128 = 0x1000_0000_01b3u128;

/// One round of the mixing function: the byte is folded in at its position in a 16-byte lane, then
/// the state is rotated left by seven bits and multiplied, wrapping, by the prime.
pub open spec fn mix_step(acc: u128, idx: int, byte: u8) -> u128 {
    let x = acc ^ ((byte as u128) << (((idx % 16) * 8) as u128));
    let rotated = (x << 7u128) | (x >> 121u128);
    rotated.wrapping_mul(DIGEST_PRIME)
}

/// The state after mixing in all of `bytes`.
pub open spec fn digest_state(bytes: Seq<u8>) -> u128
    decreases bytes.len(),
{
    if bytes.len() == 0 {
        DIGEST_SEED
    } else {
        mix_step(digest_state(bytes.drop_last()), bytes.len() - 1, bytes.last())
    }
}

/// The lower-case hexadecimal digit of `d`.
pub open spec fn hex_char(d: u128) -> char {
    if d == 0 { '0' } else if d == 1 { '1' } else if d == 2 { '2' } else if d == 3 { '3' }
    else if d == 4 { '4' } else if d == 5 { '5' } else if d == 6 { '6' } else if d == 7 { '7' }
    else if d == 8 { '8' } else if d == 9 { '9' } else if d == 10 { 'a' } else if d == 11 { 'b' }
    else if d == 12 { 'c' } else if d == 13 { 'd' } else if d == 14 { 'e' } else { 'f' }
}

/// `x` as 32 lower-case hexadecimal digits, most significant first.
pub open spec fn hex32(x: u128) -> Seq<char> {
    Seq::new(32, |i: int| hex_char((x >> ((4 * (31 - i)) as u128)) & 15u128))
}

/// The digest value of a text: the hexadecimal state after mixing in its UTF-8 bytes.
pub open spec fn digest_value_of(input: Seq<char>) -> Seq<char> {
    hex32(digest_state(encode_utf8(input)))
}

fn hex_str(d: u128) -> (r: &'static str)
    requires
        d < 16,
    ensures
        r@ == seq![hex_char(d)],
{
    proof {
        reveal_strlit("0"); reveal_strlit("1"); reveal_strlit("2"); reveal_strlit("3");
        reveal_strlit("4"); reveal_strlit("5"); reveal_strlit("6"); reveal_strlit("7");
        reveal_strlit("8"); reveal_strlit("9"); reveal_strlit("a"); reveal_strlit("b");
        reveal_strlit("c"); reveal_strlit("d"); reveal_strlit("e"); reveal_strlit("f");
    }
    if d == 0 { "0" } else if d == 1 { "1" } else if d == 2 { "2" } else if d == 3 { "3" }
    else if d == 4 { "4" } else if d == 5 { "5" } else if d == 6 { "6" } else if d == 7 { "7" }
    else if d == 8 { "8" } else if d == 9 { "9" } else if d == 10 { "a" } else if d == 11 { "b" }
    else if d == 12 { "c" } else if d == 13 { "d" } else if d == 14 { "e" } else { "f" }
}

impl Digest {
    pub fn new(algorithm: &str, value: &str) -> (r: Digest)
        ensures
            r.algorithm@ == algorithm@,
            r.value@ == value@,
    {
        Digest { algorithm: algorithm.to_owned(), value: value.to_owned() }
    }

    /// A non-cryptographic digest of `input`, tagged `eclipse-pseudo`.
    pub fn pseudo_blake3(input: &str) -> (r: Digest)
        ensures
            r.algorithm@ == "eclipse-pseudo"@,
            r.value@ == digest_value_of(input@),
    {
        let bytes = input.as_bytes();
        let mut acc: u128 = DIGEST_SEED;
        let mut idx: usize = 0;
        while idx < bytes.len()
            invariant
                bytes@ == encode_utf8(input@),
                idx <= bytes@.len(),
                acc == digest_state(bytes@.take(idx as int)),
            decreases bytes@.len() - idx,
        {
            proof { assert(bytes@.take(idx + 1).drop_last() == bytes@.take(idx as int)); }
            let shift: u128 = ((idx % 16) * 8) as u128;
            let x = acc ^ ((bytes[idx] as u128) << shift);
            let rotated = (x << 7u128) | (x >> 121u128);
            acc = rotated.wrapping_mul(DIGEST_PRIME);
            idx = idx + 1;
        }
        proof { assert(bytes@.take(idx as int) == bytes@); }
        let mut value = String::new();
        let mut i: usize = 0;
        while i < 32
            invariant
                i <= 32,
                value@ == hex32(acc).take(i as int),
            decreases 32 - i,
        {
            let shift: u128 = (4 * (31 - i)) as u128;
            let d = (acc >> shift) & 15u128;
            assert(d < 16) by (bit_vector)
                requires d == (acc >> shift) & 15u128;
            push_str(&mut value, hex_str(d));
            proof { assert(hex32(acc).take(i + 1) == hex32(acc).take(i as int).push(hex_char(d))); }
            i = i + 1;
        }
        proof { assert(hex32(acc).take(32) == hex32(acc)); }
        let mut algorithm = String::new();
        push_str(&mut algorithm, "eclipse-pseudo");
        proof { assert(algorithm@ == "eclipse-pseudo"@); }
        Digest { algorithm, value }
    }
}

/// The text whose digest seals a frame: the sequence, the previous digest value if any, and the
/// body, separated by colons.
pub open spec fn frame_seed(sequence: u64, previous: Option<Digest>, body: Seq<char>) -> Seq<char> {
    match previous {
        Some(d) => decimal(sequence as nat) + ":"@ + d.value@ + ":"@ + body,
        None => decimal(sequence as nat) + ":"@ + body,
    }
}

/// The frame carries the digest of its own seed.
pub open spec fn frame_sealed(f: JournalFrame) -> bool {
    &&& f.digest.algorithm@ == "eclipse-pseudo"@
    &&& f.digest.value@ == digest_value_of(frame_seed(f.sequence, f.previous, f.body@))
}

/// Two optional digests with the same texts.
pub open spec fn same_digest(a: Option<Digest>, b: Option<Digest>) -> bool {
    match (a, b) {
        (None, None) => true,
        (Some(x), Some(y)) => x.algorithm@ == y.algorithm@ && x.value@ == y.value@,
        _ => false,
    }
}

/// One entry of a journal, chained to the one before it by that entry's digest.
#[derive(Debug, PartialEq, Eq)]
pub struct JournalFrame {
    pub sequence: u64,
    pub previous: Option<Digest>,
    pub digest: Digest,
    pub body: String,
}

impl Clone for JournalFrame {
    fn clone(&self) -> (r: Self)
        ensures
            r == *self,
    {
        JournalFrame {
            sequence: self.sequence,
            previous: match &self.previous {
                Some(d) => Some(d.clone()),
                None => None,
            },
            digest: self.digest.clone(),
            body: self.body.clone(),
        }
    }
}

fn seed_of(sequence: u64, previous: &Option<Digest>, body: &str) -> (r: String)
    ensures
        r@ == frame_seed(sequence, *previous, body@),
{
    let mut seed = String::new();
    push_decimal(&mut seed, sequence as u128);
    push_str(&mut seed, ":");
    match previous {
        Some(d) => {
            push_str(&mut seed, d.value.as_str());
            push_str(&mut seed, ":");
            push_str(&mut seed, body);
            proof { assert(seed@ =~= frame_seed(sequence, *previous, body@)); }
        },
        None => {
            push_str(&mut seed, body);
            proof { assert(seed@ =~= frame_seed(sequence, *previous, body@)); }
        },
    }
    seed
}

impl JournalFrame {
    /// A frame sealed with the digest of its seed.
    pub fn new(sequence: u64, previous: Option<Digest>, body: &str) -> (r: JournalFrame)
        ensures
            r.sequence == sequence,
            r.previous == previous,
            r.body@ == body@,
            frame_sealed(r),
    {
        let seed = seed_of(sequence, &previous, body);
        let digest = Digest::pseudo_blake3(seed.as_str());
        JournalFrame { sequence, previous, digest, body: body.to_owned() }
    }

    /// Whether the frame carries the digest of its own seed.
    pub fn verify(&self) -> (r: bool)
        ensures
            r == frame_sealed(*self),
    {
        let seed = seed_of(self.sequence, &self.previous, self.body.as_str());
        let d = Digest::pseudo_blake3(seed.as_str());
        d.algorithm == self.digest.algorithm && d.value == self.digest.value
    }
}

/// Every frame is sealed, the first has no predecessor and each other names the digest of the one
/// before it.
pub open spec fn chain_valid(frames: Seq<JournalFrame>) -> bool {
    forall|i: int| 0 <= i < frames.len() ==> {
        &&& frame_sealed(#[trigger] frames[i])
        &&& i == 0 ==> frames[i].previous is None
        &&& i > 0 ==> same_digest(frames[i].previous, Some(frames[i - 1].digest))
    }
}

/// The frames a journal holds after appending `bodies` in order to an empty one: frame `k` is
/// numbered `k + 1`, carries body `k`, is sealed, and names the digest of frame `k - 1` (none for
/// the first).
pub open spec fn journal_of(frames: Seq<JournalFrame>, bodies: Seq<Seq<char>>) -> bool {
    &&& frames.len() == bodies.len()
    &&& forall|k: int| 0 <= k < frames.len() ==> {
        &&& (#[trigger] frames[k]).sequence == k + 1
        &&& frames[k].body@ == bodies[k]
        &&& frame_sealed(frames[k])
        &&& k == 0 ==> frames[k].previous is None
        &&& k > 0 ==> frames[k].previous == Some(frames[k - 1].digest)
    }
}

/// Frames appended in order, each chained to the one before.
#[derive(Clone, Debug, Default)]
pub struct Journal {
    pub frames: Vec<JournalFrame>,
}

impl Journal {
    pub fn new() -> (r: Journal)
        ensures
            r.frames@ == Seq::<JournalFrame>::empty(),
            chain_valid(r.frames@),
            journal_of(r.frames@, Seq::<Seq<char>>::empty()),
    {
        Journal { frames: Vec::new() }
    }

    /// Appends a frame numbered after the others and chained to the last one.
    pub fn append(&mut self, body: &str) -> (r: JournalFrame)
        requires
            old(self).frames@.len() < u64::MAX,
        ensures
            final(self).frames@ == old(self).frames@.push(r),
            r.sequence == old(self).frames@.len() + 1,
            r.body@ == body@,
            old(self).frames@.len() == 0 ==> r.previous is None,
            old(self).frames@.len() > 0 ==> r.previous == Some(old(self).frames@.last().digest),
            frame_sealed(r),
            forall|bodies: Seq<Seq<char>>| #[trigger] journal_of(old(self).frames@, bodies)
                ==> journal_of(final(self).frames@, bodies.push(body@)),
    {
        let n = self.frames.len();
        let previous = if n == 0 { None } else { Some(self.frames[n - 1].digest.clone()) };
        let frame = JournalFrame::new(n as u64 + 1, previous, body);
        let ghost before = self.frames@;
        self.frames.push(frame.clone());
        proof {
            assert forall|bodies: Seq<Seq<char>>| #[trigger] journal_of(before, bodies)
                implies journal_of(self.frames@, bodies.push(body@)) by {
                lemma_journal_push(before, bodies, frame, body@);
            }
        }
        frame
    }

    /// Whether every frame is sealed and chained to the one before it.
    #[verifier::rlimit(40)]
    pub fn verify(&self) -> (r: bool)
        ensures
            r == chain_valid(self.frames@),
    {
        let mut previous: Option<Digest> = None;
        let mut i: usize = 0;
        while i < self.frames.len()
            invariant
                i <= self.frames@.len(),
                chain_valid(self.frames@.take(i as int)),
                i == 0 ==> previous is None,
                i > 0 ==> previous == Some(self.frames@[i - 1].digest),
            decreases self.frames@.len() - i,
        {
            let frame = &self.frames[i];
            let linked = match (&frame.previous, &previous) {
                (None, None) => true,
                (Some(x), Some(y)) => x.algorithm == y.algorithm && x.value == y.value,
                _ => false,
            };
            if !linked || !frame.verify() {
                proof {
                    assert(!chain_valid(self.frames@)) by {
                        assert(self.frames@[i as int] == *frame);
                    }
                }
                return false;
            }
            previous = Some(frame.digest.clone());
            proof {
                assert forall|k: int| 0 <= k < i + 1 implies {
                    &&& frame_sealed(#[trigger] self.frames@.take(i + 1)[k])
                    &&& k == 0 ==> self.frames@.take(i + 1)[k].previous is None
                    &&& k > 0 ==> same_digest(self.frames@.take(i + 1)[k].previous, Some(self.frames@.take(i + 1)[k - 1].digest))
                } by {
                    if k < i {
                        assert(self.frames@.take(i + 1)[k] == self.frames@.take(i as int)[k]);
                        if k > 0 {
                            assert(self.frames@.take(i + 1)[k - 1] == self.frames@.take(i as int)[k - 1]);
                        }
                    }
                }
            }
            i = i + 1;
        }
        proof { assert(self.frames@.take(i as int) == self.frames@); }
        true
    }

    pub fn frames(&self) -> (r: &[JournalFrame])
        ensures
            r@ == self.frames@,
    {
        self.frames.as_slice()
    }
}

/// Appending to a valid journal keeps it valid: a read of the chain after any number of appends
/// verifies.
pub proof fn law_append_keeps_chain(frames: Seq<JournalFrame>, f: JournalFrame)
    requires
        chain_valid(frames),
        frame_sealed(f),
        frames.len() == 0 ==> f.previous is None,
        frames.len() > 0 ==> f.previous == Some(frames.last().digest),
    ensures
        chain_valid(frames.push(f)),
{
    assert forall|i: int| 0 <= i < frames.len() + 1 implies {
        &&& frame_sealed(#[trigger] frames.push(f)[i])
        &&& i == 0 ==> frames.push(f)[i].previous is None
        &&& i > 0 ==> same_digest(frames.push(f)[i].previous, Some(frames.push(f)[i - 1].digest))
    } by {
        if i < frames.len() {
            assert(frames.push(f)[i] == frames[i]);
            if i > 0 {
                assert(frames.push(f)[i - 1] == frames[i - 1]);
            }
        } else if i > 0 {
            assert(frames.push(f)[i - 1] == frames.last());
        }
    }
}

proof fn lemma_journal_push(frames: Seq<JournalFrame>, bodies: Seq<Seq<char>>, f: JournalFrame, body: Seq<char>)
    requires
        journal_of(frames, bodies),
        f.sequence == frames.len() + 1,
        f.body@ == body,
        frame_sealed(f),
        frames.len() == 0 ==> f.previous is None,
        frames.len() > 0 ==> f.previous == Some(frames.last().digest),
    ensures
        journal_of(frames.push(f), bodies.push(body)),
{
    let t = frames.push(f);
    assert forall|k: int| 0 <= k < t.len() implies {
        &&& (#[trigger] t[k]).sequence == k + 1
        &&& t[k].body@ == bodies.push(body)[k]
        &&& frame_sealed(t[k])
        &&& k == 0 ==> t[k].previous is None
        &&& k > 0 ==> t[k].previous == Some(t[k - 1].digest)
    } by {
        if k < frames.len() {
            assert(t[k] == frames[k]);
            if k > 0 {
                assert(t[k - 1] == frames[k - 1]);
            }
        } else if k > 0 {
            assert(t[k - 1] == frames.last());
        }
    }
}

/// A journal built by appends from an empty one verifies: whatever bodies were appended, the
/// chain read back is valid, numbered from one, with each body in the order it was appended.
pub proof fn law_appended_journal_verifies(frames: Seq<JournalFrame>, bodies: Seq<Seq<char>>)
    requires
        journal_of(frames, bodies),
    ensures
        chain_valid(frames),
        forall|k: int| 0 <= k < frames.len() ==> (#[trigger] frames[k]).sequence == k + 1 && frames[k].body@ == bodies[k],
{
    assert forall|i: int| 0 <= i < frames.len() implies {
        &&& frame_sealed(#[trigger] frames[i])
        &&& i == 0 ==> frames[i].previous is None
        &&& i > 0 ==> same_digest(frames[i].previous, Some(frames[i - 1].digest))
    } by {
        assert(frames[i].sequence == i + 1);
    }
}

} // verus!
