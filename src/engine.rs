//! The digest engine: folds content, chunk by chunk, into a SHA-1 state and
//! renders the result, or compares it with an expected digest.
//!
//! Reading is left to the caller. After each read it hands the outcome to
//! `hash_step` or `validate_step`, which decide whether to read on and, at the
//! end, what the answer is.
use crate::ascii::{eq_ignore_ascii_case, is_ascii_upper, str_eq_ignore_ascii_case};
use crate::error::SHAError;
use crate::hex::{hex_of, is_lower_hex_char, lemma_hex_of_is_lower_hex, to_hex};
use crate::sha1_state::{
    sha1_digest, sha1_fed, sha1_finalize, sha1_new, sha1_update, Sha1State, MAX_CONTENT_LEN,
};
use vstd::prelude::*;
use vstd::slice::slice_subrange;

verus! {

/// How many bytes a caller reads at a time.
pub const CHUNK_SIZE: usize = 8192;

/// The digest of `content` as lowercase hexadecimal text.
pub open spec fn sha1_hex(content: Seq<u8>) -> Seq<char> {
    hex_of(sha1_digest(content))
}

/// Text in the form of a SHA-1 digest: 40 lowercase hexadecimal digits.
pub open spec fn is_digest_text(s: Seq<char>) -> bool {
    &&& s.len() == 40
    &&& forall|i: int| 0 <= i < s.len() ==> is_lower_hex_char(#[trigger] s[i])
}

/// A SHA-1 computation in progress. Its view is the content fed so far.
pub struct DigestEngine {
    state: Sha1State,
    absorbed: u64,
}

impl View for DigestEngine {
    type V = Seq<u8>;

    closed spec fn view(&self) -> Seq<u8> {
        sha1_fed(self.state)
    }
}

/// What the caller does after handing the engine one read.
pub enum Step<T> {
    /// Read on, feeding the next outcome to this engine.
    Continue(DigestEngine),
    /// Stop: this is the answer.
    Done(T),
}

/// `r` says to read on with an engine whose content is `content`.
pub open spec fn continues_with<T>(r: Step<T>, content: Seq<u8>) -> bool {
    match r {
        Step::Continue(next) => next@ == content,
        Step::Done(_) => false,
    }
}

/// `r` stops with the digest text `digest`.
pub open spec fn done_with_digest(r: Step<Result<String, SHAError>>, digest: Seq<char>) -> bool {
    match r {
        Step::Done(Ok(s)) => s@ == digest && is_digest_text(s@),
        _ => false,
    }
}

/// `r` stops with an I/O error.
pub open spec fn done_with_io_error(r: Step<Result<String, SHAError>>) -> bool {
    r matches Step::Done(Err(SHAError::IO(_)))
}

/// Relies on `std::io::Error::new`: an error of kind `InvalidData` with the
/// given text.
#[verifier::external_body]
fn invalid_data_error(msg: &str) -> std::io::Error {
    std::io::Error::new(std::io::ErrorKind::InvalidData, msg)
}

impl DigestEngine {
    #[verifier::type_invariant]
    spec fn inv(&self) -> bool {
        &&& self.absorbed as nat == sha1_fed(self.state).len()
        &&& self.absorbed <= MAX_CONTENT_LEN
    }

    /// An engine that has been fed nothing.
    pub fn new() -> (r: DigestEngine)
        ensures
            r@ == Seq::<u8>::empty(),
    {
        DigestEngine { state: sha1_new(), absorbed: 0 }
    }

    /// Whether `n` more bytes can be fed without passing the limit.
    pub fn has_room_for(&self, n: usize) -> (r: bool)
        ensures
            r == (self@.len() + n <= MAX_CONTENT_LEN),
    {
        proof { use_type_invariant(self); }
        n as u64 <= MAX_CONTENT_LEN - self.absorbed
    }

    /// Appends `chunk` to the content.
    pub fn absorb(self, chunk: &[u8]) -> (r: DigestEngine)
        requires
            self@.len() + chunk@.len() <= MAX_CONTENT_LEN,
        ensures
            r@ == self@ + chunk@,
    {
        proof { use_type_invariant(&self); }
        let DigestEngine { state, absorbed } = self;
        let mut state = state;
        sha1_update(&mut state, chunk);
        DigestEngine { state, absorbed: absorbed + chunk.len() as u64 }
    }

    /// The digest of the content, as 40 lowercase hexadecimal digits.
    pub fn hex_digest(self) -> (r: String)
        ensures
            r@ == sha1_hex(self@),
            is_digest_text(r@),
    {
        proof { use_type_invariant(&self); }
        let DigestEngine { state, absorbed: _ } = self;
        let digest = sha1_finalize(state);
        proof { lemma_hex_of_is_lower_hex(digest@); }
        to_hex(&digest)
    }

    /// Takes the outcome of one read while hashing. An empty chunk ends the
    /// content and gives its digest; a read error is the answer. A chunk that
    /// would take the content past `MAX_CONTENT_LEN` ends it with an I/O error
    /// of kind `InvalidData`.
    pub fn hash_step(self, read: Result<&[u8], std::io::Error>) -> (r: Step<
        Result<String, SHAError>,
    >)
        ensures
            match read {
                Ok(chunk) => if chunk@.len() == 0 {
                    done_with_digest(r, sha1_hex(self@))
                } else if self@.len() + chunk@.len() <= MAX_CONTENT_LEN {
                    continues_with(r, self@ + chunk@)
                } else {
                    done_with_io_error(r)
                },
                Err(e) => r == Step::<Result<String, SHAError>>::Done(Err(SHAError::IO(e))),
            },
    {
        match read {
            Ok(chunk) => {
                if chunk.len() == 0 {
                    Step::Done(Ok(self.hex_digest()))
                } else if self.has_room_for(chunk.len()) {
                    Step::Continue(self.absorb(chunk))
                } else {
                    Step::Done(
                        Err(SHAError::IO(invalid_data_error("content exceeds the SHA-1 length limit"))),
                    )
                }
            },
            Err(e) => Step::Done(Err(SHAError::IO(e))),
        }
    }

    /// Takes the outcome of one read while validating against `expected`. An
    /// empty chunk ends the content and gives whether its digest matches. A
    /// read error, or a chunk that would take the content past
    /// `MAX_CONTENT_LEN`, gives `false`.
    pub fn validate_step(self, read: Result<&[u8], std::io::Error>, expected: &str) -> (r: Step<
        bool,
    >)
        ensures
            match read {
                Ok(chunk) => if chunk@.len() == 0 {
                    r == Step::<bool>::Done(eq_ignore_ascii_case(sha1_hex(self@), expected@))
                } else if self@.len() + chunk@.len() <= MAX_CONTENT_LEN {
                    continues_with(r, self@ + chunk@)
                } else {
                    r == Step::<bool>::Done(false)
                },
                Err(_) => r == Step::<bool>::Done(false),
            },
    {
        match read {
            Ok(chunk) => {
                if chunk.len() == 0 {
                    Step::Done(self.matches(expected))
                } else if self.has_room_for(chunk.len()) {
                    Step::Continue(self.absorb(chunk))
                } else {
                    Step::Done(false)
                }
            },
            Err(_) => Step::Done(false),
        }
    }

    /// Whether the digest of the content equals `expected`, ignoring ASCII case.
    pub fn matches(self, expected: &str) -> (r: bool)
        ensures
            r == eq_ignore_ascii_case(sha1_hex(self@), expected@),
    {
        let computed = self.hex_digest();
        str_eq_ignore_ascii_case(computed.as_str(), expected)
    }
}

/// The end of the chunk that starts at `pos`: `CHUNK_SIZE` bytes on, or the
/// end of `content` if that comes first.
fn chunk_end(content: &[u8], pos: usize) -> (end: usize)
    requires
        pos <= content@.len(),
    ensures
        pos <= end <= content@.len(),
        end - pos <= CHUNK_SIZE,
        end == pos <==> pos == content@.len(),
{
    if content.len() - pos < CHUNK_SIZE {
        content.len()
    } else {
        pos + CHUNK_SIZE
    }
}

/// The digest of `content`, fed to the engine in chunks of `CHUNK_SIZE` bytes
/// as a reader of it would deliver them.
pub fn hash_bytes(content: &[u8]) -> (r: String)
    requires
        content@.len() <= MAX_CONTENT_LEN,
    ensures
        r@ == sha1_hex(content@),
        is_digest_text(r@),
{
    let mut engine = DigestEngine::new();
    let mut pos: usize = 0;
    loop
        invariant
            pos <= content@.len() <= MAX_CONTENT_LEN,
            engine@ == content@.take(pos as int),
        decreases content@.len() - pos,
    {
        let end = chunk_end(content, pos);
        let chunk = slice_subrange(content, pos, end);
        proof {
            assert(content@.take(pos as int) + chunk@ =~= content@.take(end as int));
        }
        match engine.hash_step(Ok(chunk)) {
            Step::Continue(next) => {
                engine = next;
                pos = end;
            },
            Step::Done(result) => {
                proof {
                    assert(content@.take(pos as int) =~= content@);
                }
                return result.unwrap();
            },
        }
    }
}

/// Whether the digest of `content`, fed as `hash_bytes` feeds it, equals
/// `expected`, ignoring ASCII case.
pub fn validate_bytes(content: &[u8], expected: &str) -> (r: bool)
    requires
        content@.len() <= MAX_CONTENT_LEN,
    ensures
        r == eq_ignore_ascii_case(sha1_hex(content@), expected@),
{
    let mut engine = DigestEngine::new();
    let mut pos: usize = 0;
    loop
        invariant
            pos <= content@.len() <= MAX_CONTENT_LEN,
            engine@ == content@.take(pos as int),
        decreases content@.len() - pos,
    {
        let end = chunk_end(content, pos);
        let chunk = slice_subrange(content, pos, end);
        proof {
            assert(content@.take(pos as int) + chunk@ =~= content@.take(end as int));
        }
        match engine.validate_step(Ok(chunk), expected) {
            Step::Continue(next) => {
                engine = next;
                pos = end;
            },
            Step::Done(answer) => {
                proof {
                    assert(content@.take(pos as int) =~= content@);
                }
                return answer;
            },
        }
    }
}

/// The content of an engine that held `start` and was then fed `chunks`, one
/// after another, each through a `Continue` step.
pub open spec fn fed_after(start: Seq<u8>, chunks: Seq<Seq<u8>>) -> Seq<u8>
    decreases chunks.len(),
{
    if chunks.len() == 0 {
        start
    } else {
        fed_after(start + chunks[0], chunks.drop_first())
    }
}

/// Feeding chunks one after another feeds them joined.
pub proof fn lemma_fed_after_joins(start: Seq<u8>, chunks: Seq<Seq<u8>>)
    ensures
        fed_after(start, chunks) == start + chunks.flatten(),
    decreases chunks.len(),
{
    if chunks.len() > 0 {
        lemma_fed_after_joins(start + chunks[0], chunks.drop_first());
        assert(start + chunks[0] + chunks.drop_first().flatten() =~= start + chunks.flatten());
    } else {
        assert(start + chunks.flatten() =~= start);
    }
}

/// The digest depends on the bytes delivered and not on how the reads split
/// them: two sources that deliver the same bytes in different pieces (an open
/// handle and a fresh open of its path, say) end with the same digest.
pub proof fn lemma_same_bytes_same_digest(a: Seq<Seq<u8>>, b: Seq<Seq<u8>>)
    requires
        a.flatten() == b.flatten(),
    ensures
        fed_after(Seq::empty(), a) == fed_after(Seq::empty(), b),
        sha1_hex(fed_after(Seq::empty(), a)) == sha1_hex(fed_after(Seq::empty(), b)),
{
    lemma_fed_after_joins(Seq::empty(), a);
    lemma_fed_after_joins(Seq::empty(), b);
}

/// A string validates against the digest of `content` exactly when it is that
/// digest with any of its letters, or none, written as capitals. In particular
/// the digest validates against itself in any letter case, and every other
/// string fails.
pub proof fn lemma_validates_iff_digest_up_to_case(content: Seq<u8>, h: Seq<char>)
    ensures
        eq_ignore_ascii_case(sha1_hex(content), h) <==> {
            &&& h.len() == sha1_hex(content).len()
            &&& forall|i: int|
                0 <= i < h.len() ==> #[trigger] h[i] == sha1_hex(content)[i] || (is_ascii_upper(h[i])
                    && h[i] as u32 + 32 == sha1_hex(content)[i] as u32)
        },
{
    let d = sha1_hex(content);
    lemma_hex_of_is_lower_hex(sha1_digest(content));
    if eq_ignore_ascii_case(d, h) {
        assert forall|i: int| 0 <= i < h.len() implies #[trigger] h[i] == d[i] || (is_ascii_upper(h[i])
            && h[i] as u32 + 32 == d[i] as u32) by {
            assert(is_lower_hex_char(d[i]));
            assert(!is_ascii_upper(d[i]));
        }
    }
}

} // verus!
