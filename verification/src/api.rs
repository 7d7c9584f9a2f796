//! The pipeline surface a server or CLI drives: build options, the
//! validation gate in front of a build, and the `.anx` bytes handed out in
//! chunks that never split a UTF-16 code unit.
use vstd::prelude::*;

use crate::error::{AnxValidationError, Error};
use crate::input::{ChartData, Config};
use crate::report::findings;
use crate::validation::chart::entity_count;
use crate::validation::{validate, validation_findings};

verus! {

/// How a build runs: compact (unindented) XML, and whether to validate first.
#[derive(Debug, Clone, Copy, PartialEq, Eq, Structural)]
pub struct BuildOptions {
    pub compact: bool,
    pub validate: bool,
}

impl Default for BuildOptions {
    fn default() -> (o: Self)
        ensures
            o.compact && o.validate,
    {
        BuildOptions { compact: true, validate: true }
    }
}

/// The validation gate: `Ok` when the chart has no finding, otherwise the
/// whole batch of findings as [`Error::Validation`].
pub fn validate_or_err(config: &Config, data: &ChartData) -> (r: Result<(), Error>)
    requires
        entity_count(*data) <= usize::MAX,
    ensures
        r is Ok <==> validation_findings(*config, *data).len() == 0,
        r matches Err(Error::Validation(e)) ==> findings(e.errors@) == validation_findings(
            *config,
            *data,
        ),
        r is Err ==> r matches Err(Error::Validation(_)),
{
    let errors = validate(config, data);
    if errors.len() == 0 {
        Ok(())
    } else {
        Err(Error::Validation(AnxValidationError::new(errors)))
    }
}

/// The length of the next chunk: `chunk` bytes (one fewer when `chunk` is
/// odd, so a code unit is never split), or whatever remains.
pub open spec fn next_len(remaining: int, chunk: int) -> int {
    if chunk >= remaining {
        remaining
    } else if chunk % 2 == 1 {
        chunk - 1
    } else {
        chunk
    }
}

/// `.anx` bytes handed out in chunks of at most `chunk` bytes.
pub struct AnxByteChunks {
    bytes: Vec<u8>,
    pos: usize,
    chunk: usize,
}

impl AnxByteChunks {
    #[verifier::type_invariant]
    spec fn well_formed(self) -> bool {
        self.pos <= self.bytes@.len() && self.chunk >= 2
    }

    /// The bytes not handed out yet.
    pub closed spec fn remaining(self) -> Seq<u8> {
        self.bytes@.skip(self.pos as int)
    }

    /// The chunk size in force (at least 2).
    pub closed spec fn chunk_size(self) -> int {
        self.chunk as int
    }

    /// Chunks of `bytes`, `chunk` bytes each (2 at least).
    pub fn new(bytes: Vec<u8>, chunk: usize) -> (r: Self)
        ensures
            r.remaining() == bytes@,
            r.chunk_size() == if chunk < 2 {
                2
            } else {
                chunk as int
            },
    {
        let c = if chunk < 2 {
            2
        } else {
            chunk
        };
        let r = AnxByteChunks { bytes, pos: 0, chunk: c };
        assert(r.bytes@.skip(0) =~= r.bytes@);
        r
    }

    /// The next chunk, in order; `None` once everything was handed out.
    pub fn next_chunk(&mut self) -> (r: Option<Vec<u8>>)
        ensures
            final(self).chunk_size() == old(self).chunk_size(),
            old(self).remaining().len() == 0 ==> r is None && final(self).remaining()
                == old(self).remaining(),
            old(self).remaining().len() > 0 ==> (r matches Some(out) && out@ == old(
                self,
            ).remaining().take(next_len(old(self).remaining().len() as int, old(self).chunk_size()))
                && final(self).remaining() == old(self).remaining().skip(
                next_len(old(self).remaining().len() as int, old(self).chunk_size()),
            )),
    {
        proof {
            use_type_invariant(&*self);
        }
        let len = self.bytes.len();
        if self.pos >= len {
            return None;
        }
        let end0 = if self.chunk >= len - self.pos {
            len
        } else {
            self.pos + self.chunk
        };
        let end = if end0 < len && (end0 - self.pos) % 2 == 1 {
            end0 - 1
        } else {
            end0
        };
        let mut out: Vec<u8> = Vec::new();
        let mut k = self.pos;
        while k < end
            invariant
                self.pos <= k <= end <= len,
                len == self.bytes@.len(),
                out@ == self.bytes@.subrange(self.pos as int, k as int),
            decreases end - k,
        {
            out.push(self.bytes[k]);
            k = k + 1;
            assert(out@ =~= self.bytes@.subrange(self.pos as int, k as int));
        }
        let ghost before = self.bytes@.skip(self.pos as int);
        assert(out@ =~= before.take((end - self.pos) as int));
        assert(self.bytes@.skip(end as int) =~= before.skip((end - self.pos) as int));
        self.pos = end;
        Some(out)
    }
}


/// Whether `s` ends with `suffix`.
pub open spec fn ends_with(s: Seq<char>, suffix: Seq<char>) -> bool {
    suffix.len() <= s.len() && s.skip(s.len() - suffix.len()) == suffix
}

fn has_suffix(v: &Vec<char>, suffix: &str) -> (r: bool)
    ensures
        r == ends_with(v@, suffix@),
{
    let p = crate::text::chars_of(suffix);
    if p.len() > v.len() {
        return false;
    }
    let off = v.len() - p.len();
    let n = p.len();
    assert(v@.len() <= usize::MAX);
    for i in 0..n
        invariant
            n == p@.len(),
            off + n == v@.len(),
            v@.len() <= usize::MAX,
            p@ == suffix@,
            forall|k: int| 0 <= k < i ==> v@[off + k] == p@[k],
    {
        if v[off + i] != p[i] {
            assert(v@.skip(off as int)[i as int] != p@[i as int]);
            return false;
        }
    }
    assert(v@.skip(off as int) =~= p@);
    true
}

/// Whether a path names a YAML file: it ends in `.yaml` or `.yml`, in any
/// letter case.
pub fn is_yaml(path: &str) -> (r: bool)
    ensures
        r == (ends_with(crate::text::lowercase(path@), ".yaml"@) || ends_with(
            crate::text::lowercase(path@),
            ".yml"@,
        )),
{
    let lower = crate::text::to_lowercase_chars(&crate::text::chars_of(path));
    has_suffix(&lower, ".yaml") || has_suffix(&lower, ".yml")
}


/// Handing out a chunk loses nothing: the chunk followed by what remains is
/// what remained before, a chunk of a non-empty rest is never empty, and it
/// has an even length unless it is the whole rest.
pub proof fn chunk_then_rest(rest: Seq<u8>, chunk: int)
    requires
        chunk >= 2,
    ensures
        rest.take(next_len(rest.len() as int, chunk)) + rest.skip(next_len(rest.len() as int, chunk))
            == rest,
        rest.len() > 0 ==> next_len(rest.len() as int, chunk) > 0,
        next_len(rest.len() as int, chunk) % 2 == 0 || next_len(rest.len() as int, chunk)
            == rest.len(),
        0 <= next_len(rest.len() as int, chunk) <= rest.len(),
{
    let k = next_len(rest.len() as int, chunk);
    assert(rest.take(k) + rest.skip(k) =~= rest);
}

} // verus!
