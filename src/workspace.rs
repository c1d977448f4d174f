//! Where the plan lives under a project root, and the checks made before a
//! generated file is written.
use vstd::prelude::*;
use vstd::string::StringSliceAdditionalSpecFns;
use crate::text::{chars_of, push_str, string_of, trim, trimmed};

verus! {

/// `name` appended to the path `base` as one more component (`name` is
/// relative): joined with a `/` unless `base` is empty or already ends with one.
pub open spec fn join_path(base: Seq<char>, name: Seq<char>) -> Seq<char> {
    if base.len() == 0 {
        name
    } else if base.last() == '/' {
        base + name
    } else {
        base + seq!['/'] + name
    }
}

/// Appends the relative component `name` to the path `base`.
pub fn join(base: &str, name: &str) -> (r: String)
    ensures
        r@ == join_path(base@, name@),
{
    let b = chars_of(base);
    let mut out: Vec<char> = Vec::new();
    push_str(&mut out, base);
    if b.len() > 0 && b[b.len() - 1] != '/' {
        out.push('/');
    }
    push_str(&mut out, name);
    assert(out@ =~= join_path(base@, name@));
    string_of(out.as_slice())
}

/// The directory of the plan documents: `doplan` under the project root.
pub fn doplan_dir(root: &str) -> (r: String)
    ensures
        r@ == join_path(root@, "doplan"@),
{
    join(root, "doplan")
}

/// The directory of the tool's own records: `.doplan` under the project root.
pub fn dot_doplan_dir(root: &str) -> (r: String)
    ensures
        r@ == join_path(root@, ".doplan"@),
{
    join(root, ".doplan")
}

/// The directory of the IDE command files: `.doplan/ai/commands` under the
/// project root.
pub fn ai_commands_dir(root: &str) -> (r: String)
    ensures
        r@ == join_path(join_path(join_path(root@, ".doplan"@), "ai"@), "commands"@),
{
    let d = dot_doplan_dir(root);
    let a = join(d.as_str(), "ai");
    join(a.as_str(), "commands")
}

/// Why a file may not be written.
#[derive(Debug, PartialEq, Eq, Structural)]
pub enum ValidationError {
    /// The path names a directory.
    IsDirectory,
    /// The directory that would hold the file does not exist.
    ParentMissing,
    /// The content, less surrounding white space, is shorter than required;
    /// `length` is the byte length of the whole content.
    ContentTooShort { length: usize, min_length: usize },
}

/// Whether a file may be written at a path, given what the file system says
/// of it: not if the path is a directory, nor if the directory that would
/// hold it is missing (a path without a parent has none missing).
pub fn validate_write_path(path_is_dir: bool, parent_exists: bool) -> (r: Result<
    (),
    ValidationError,
>)
    ensures
        path_is_dir ==> r == Err::<(), ValidationError>(ValidationError::IsDirectory),
        !path_is_dir && !parent_exists ==> r == Err::<(), ValidationError>(
            ValidationError::ParentMissing,
        ),
        !path_is_dir && parent_exists ==> r is Ok,
{
    if path_is_dir {
        Err(ValidationError::IsDirectory)
    } else if !parent_exists {
        Err(ValidationError::ParentMissing)
    } else {
        Ok(())
    }
}

/// The number of bytes of `c` in UTF-8.
pub open spec fn utf8_width(c: char) -> nat {
    let n = c as u32;
    if n < 0x80 {
        1
    } else if n < 0x800 {
        2
    } else if n < 0x10000 {
        3
    } else {
        4
    }
}

/// The number of bytes of `s` in UTF-8.
pub open spec fn utf8_len(s: Seq<char>) -> nat
    decreases s.len(),
{
    if s.len() == 0 {
        0
    } else {
        utf8_len(s.drop_last()) + utf8_width(s.last())
    }
}

/// The number of bytes of `s` in UTF-8.
fn byte_len(s: &[char]) -> (r: u128)
    ensures
        r == utf8_len(s@),
{
    let mut n: u128 = 0;
    for i in 0..s.len()
        invariant
            n == utf8_len(s@.take(i as int)),
            n <= 4 * i,
    {
        assert(s@.take(i + 1).drop_last() =~= s@.take(i as int));
        let c = s[i] as u32;
        let w: u128 = if c < 0x80 {
            1
        } else if c < 0x800 {
            2
        } else if c < 0x10000 {
            3
        } else {
            4
        };
        n = n + w;
    }
    assert(s@.take(s@.len() as int) =~= s@);
    n
}

/// Whether generated content is long enough: its byte length, less
/// surrounding white space, must be at least `min_length`.
pub fn validate_content(content: &str, min_length: usize) -> (r: Result<(), ValidationError>)
    ensures
        r is Ok <==> utf8_len(trim(content@)) >= min_length,
        r is Err ==> r == Err::<(), ValidationError>(
            ValidationError::ContentTooShort {
                length: content.spec_bytes().len() as usize,
                min_length,
            },
        ),
{
    let c = chars_of(content);
    let t = trimmed(c.as_slice());
    if byte_len(t.as_slice()) < min_length as u128 {
        Err(ValidationError::ContentTooShort { length: content.len(), min_length })
    } else {
        Ok(())
    }
}

} // verus!
