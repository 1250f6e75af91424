//! Classification of a destination against the desired outcome.

use vstd::prelude::*;
use vstd::utf8::encode_utf8;
use crate::decision::Decision;
use crate::paths::{opt_view, same_text};

verus! {

/// What was observed at a destination path before any change.
#[derive(Debug)]
pub struct TargetProbe {
    /// Something is there, a dangling symbolic link included.
    pub present: bool,
    /// The target of the symbolic link there, if it is one.
    pub link_target: Option<String>,
    /// A regular file is there, following links.
    pub is_file: bool,
    /// The bytes read there, following links, if reading succeeded.
    pub content: Option<Vec<u8>>,
}

/// The bytes of an optional byte vector.
pub open spec fn bytes_view(o: Option<Vec<u8>>) -> Option<Seq<u8>> {
    match o {
        Some(v) => Some(v@),
        None => None,
    }
}

impl TargetProbe {
    /// A destination where nothing is present.
    pub fn absent() -> (r: TargetProbe)
        ensures
            !r.present,
            r.link_target.is_none(),
            !r.is_file,
            r.content.is_none(),
    {
        TargetProbe { present: false, link_target: None, is_file: false, content: None }
    }
}

/// The state of a destination relative to what a decision asks for.
#[derive(Debug, Clone, Copy, PartialEq, Eq, Structural)]
pub enum TargetState {
    /// Nothing is there.
    Absent,
    /// The desired link or content is already there.
    InPlace,
    /// A regular file, not a link, with the source's bytes.
    Identical,
    /// Something else is there: a directory, a link to anything but the
    /// source, other bytes.
    Differs,
}

/// The state of destination `t` for a kept entry whose transform content is
/// `transform`, whose source is at `source_path` and holds `source` when read.
pub open spec fn target_state(
    transform: Option<Seq<char>>,
    source_path: Seq<char>,
    source: Option<Seq<u8>>,
    t: TargetProbe,
) -> TargetState {
    if !t.present {
        TargetState::Absent
    } else {
        match transform {
            Some(c) => if t.is_file && t.link_target.is_none() && bytes_view(t.content) == Some(
                encode_utf8(c),
            ) {
                TargetState::InPlace
            } else {
                TargetState::Differs
            },
            None => if opt_view(t.link_target) == Some(source_path) {
                TargetState::InPlace
            } else if t.is_file && t.link_target.is_none() && source.is_some() && bytes_view(
                t.content,
            ) == source {
                TargetState::Identical
            } else {
                TargetState::Differs
            },
        }
    }
}

/// Whether two byte slices are equal.
fn same_bytes(a: &[u8], b: &[u8]) -> (r: bool)
    ensures
        r == (a@ == b@),
{
    if a.len() != b.len() {
        return false;
    }
    let mut i: usize = 0;
    while i < a.len()
        invariant
            a@.len() == b@.len(),
            0 <= i <= a@.len(),
            forall|j: int| 0 <= j < i ==> a@[j] == b@[j],
        decreases a@.len() - i,
    {
        if a[i] != b[i] {
            return false;
        }
        i = i + 1;
    }
    assert(a@ =~= b@);
    true
}

/// Classifies destination `probe` for the kept decision `d` on the source at
/// `source_path`, whose bytes are `source` when they could be read.
pub fn classify(d: &Decision, source_path: &str, source: &Option<Vec<u8>>, probe: &TargetProbe) -> (r:
    TargetState)
    ensures
        r == target_state(opt_view(d.transform), source_path@, bytes_view(*source), *probe),
{
    if !probe.present {
        return TargetState::Absent;
    }
    match &d.transform {
        Some(c) => {
            let matches = match &probe.content {
                Some(bytes) => {
                    let want = c.as_str().as_bytes();
                    assert(want@ == encode_utf8(c@));
                    probe.is_file && probe.link_target.is_none() && same_bytes(bytes.as_slice(), want)
                },
                None => false,
            };
            if matches {
                TargetState::InPlace
            } else {
                TargetState::Differs
            }
        },
        None => {
            let linked = match &probe.link_target {
                Some(t) => same_text(t.as_str(), source_path),
                None => false,
            };
            if linked {
                return TargetState::InPlace;
            }
            let same = match (&probe.content, source) {
                (Some(a), Some(b)) => probe.is_file && probe.link_target.is_none() && same_bytes(
                    a.as_slice(),
                    b.as_slice(),
                ),
                _ => false,
            };
            if same {
                TargetState::Identical
            } else {
                TargetState::Differs
            }
        },
    }
}

} // verus!
