//! The typed outcome of evaluating a policy descriptor.

use vstd::prelude::*;

verus! {

/// Whether `s` is acceptable as a destination file name: one non-empty path
/// component, free of `/` and `\`.
pub open spec fn valid_rename(s: Seq<char>) -> bool {
    &&& s.len() > 0
    &&& !s.contains('/')
    &&& !s.contains('\\')
}

/// What a descriptor decided for one source file.
#[derive(Debug)]
pub struct Decision {
    /// When false the entry is skipped and the other fields carry nothing.
    pub keep: bool,
    /// A file name that replaces the source file's name at the destination.
    pub rename_to: Option<String>,
    /// Content written verbatim at the destination instead of a symbolic link.
    pub transform: Option<String>,
}

impl Decision {
    /// Consistency of the fields: an excluded entry carries no rename or
    /// transform, and a rename is a valid file name.
    pub open spec fn wf(&self) -> bool {
        &&& !self.keep ==> self.rename_to.is_none() && self.transform.is_none()
        &&& self.rename_to matches Some(n) ==> valid_rename(n@)
    }

    /// The decision for a source file without a descriptor: keep it as a link.
    pub fn linked() -> (r: Decision)
        ensures
            r.keep,
            r.rename_to.is_none(),
            r.transform.is_none(),
    {
        Decision { keep: true, rename_to: None, transform: None }
    }

    /// The decision for a descriptor that returned a boolean.
    pub fn from_bool(keep: bool) -> (r: Decision)
        ensures
            r.keep == keep,
            r.rename_to.is_none(),
            r.transform.is_none(),
            r.wf(),
    {
        Decision { keep, rename_to: None, transform: None }
    }
}

/// Why a descriptor could not be turned into a decision.
#[derive(Debug)]
pub enum DescriptorError {
    /// Loading or running the descriptor failed; the message of the interpreter.
    EvalFailed(String),
    /// The descriptor returned something other than a boolean or a table; that value.
    WrongType(mlua::Value),
    /// `rename_to` holds a path separator; the offending name.
    RenameHasSeparator(String),
    /// `rename_to` is the empty string.
    RenameEmpty,
    /// The described file could not be read for its transform; the message.
    SourceUnreadable(String),
    /// The `transform` function failed; the message of the interpreter.
    TransformFailed(String),
}

/// Validates a `rename_to` value: separators are reported before emptiness.
pub fn check_rename(name: &str) -> (r: Result<(), DescriptorError>)
    ensures
        r is Ok <==> valid_rename(name@),
        r matches Err(DescriptorError::RenameHasSeparator(n)) <==> (name@.contains('/')
            || name@.contains('\\')),
        r matches Err(DescriptorError::RenameHasSeparator(n)) ==> n@ == name@,
        r matches Err(DescriptorError::RenameEmpty) <==> (name@.len() == 0),
{
    let n = name.unicode_len();
    let mut i: usize = 0;
    while i < n
        invariant
            n == name@.len(),
            0 <= i <= n,
            forall|j: int| 0 <= j < i ==> name@[j] != '/' && name@[j] != '\\',
        decreases n - i,
    {
        let c = name.get_char(i);
        if c == '/' || c == '\\' {
            assert(name@.contains(c));
            return Err(DescriptorError::RenameHasSeparator(String::from_str(name)));
        }
        i = i + 1;
    }
    assert(!name@.contains('/') && !name@.contains('\\')) by {
        if name@.contains('/') {
            let j = choose|j: int| 0 <= j < name@.len() && name@[j] == '/';
        }
        if name@.contains('\\') {
            let j = choose|j: int| 0 <= j < name@.len() && name@[j] == '\\';
        }
    }
    if n == 0 {
        Err(DescriptorError::RenameEmpty)
    } else {
        Ok(())
    }
}

} // verus!
