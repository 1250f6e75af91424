//! Path derivations: descriptor pairing, destination names and `~` handling.

use vstd::prelude::*;

verus! {

/// The suffix that marks a file as the descriptor of its sibling.
pub open spec fn descriptor_suffix() -> Seq<char> {
    ".lua"@
}

/// The path components of a relative path, as character sequences.
pub open spec fn names(v: Seq<String>) -> Seq<Seq<char>> {
    v.map_values(|s: String| s@)
}

/// The destination path of a kept entry: the last component replaced by the
/// rename when there is one, the other components unchanged.
pub open spec fn renamed(rel: Seq<Seq<char>>, rename_to: Option<Seq<char>>) -> Seq<Seq<char>> {
    match rename_to {
        Some(n) => rel.update(rel.len() - 1, n),
        None => rel,
    }
}

/// The character sequence of an optional string.
pub open spec fn opt_view(o: Option<String>) -> Option<Seq<char>> {
    match o {
        Some(s) => Some(s@),
        None => None,
    }
}

/// `p` with a leading `home` written as `~`.
pub open spec fn shortened(p: Seq<char>, home: Option<Seq<char>>) -> Seq<char> {
    match home {
        Some(h) => if h.is_prefix_of(p) {
            seq!['~'] + p.skip(h.len() as int)
        } else {
            p
        },
        None => p,
    }
}

/// `rest` adjoined to `base` as a Unix path: an absolute `rest` replaces
/// `base`; otherwise a separator goes between them unless `base` is empty or
/// already ends in one.
pub open spec fn joined_path(base: Seq<char>, rest: Seq<char>) -> Seq<char> {
    if rest.len() > 0 && rest[0] == '/' {
        rest
    } else if base.len() == 0 || base.last() == '/' {
        base + rest
    } else {
        base + seq!['/'] + rest
    }
}

/// Adjoins `rest` to `base` as a Unix path.
fn join_path(base: &str, rest: &str) -> (r: String)
    ensures
        r@ == joined_path(base@, rest@),
{
    proof {
        reveal_strlit("/");
    }
    let rl = rest.unicode_len();
    let bl = base.unicode_len();
    if rl > 0 && rest.get_char(0) == '/' {
        return String::from_str(rest);
    }
    let mut r = String::from_str(base);
    if bl > 0 && base.get_char(bl - 1) != '/' {
        r.append("/");
    }
    r.append(rest);
    r
}

/// A configuration problem found before the walk starts.
#[derive(Debug, PartialEq, Eq)]
pub enum ConfigError {
    /// The home directory is needed but not known.
    HomeUnset,
}

/// Whether two strings hold the same characters.
pub(crate) fn same_text(a: &str, b: &str) -> (r: bool)
    ensures
        r == (a@ == b@),
{
    let n = a.unicode_len();
    if n != b.unicode_len() {
        return false;
    }
    let mut i: usize = 0;
    while i < n
        invariant
            n == a@.len(),
            a@.len() == b@.len(),
            0 <= i <= n,
            forall|j: int| 0 <= j < i ==> a@[j] == b@[j],
        decreases n - i,
    {
        if a.get_char(i) != b.get_char(i) {
            return false;
        }
        i = i + 1;
    }
    assert(a@ =~= b@);
    true
}

/// The name of the descriptor that belongs to the file `name`.
pub fn descriptor_name(name: &str) -> (r: String)
    ensures
        r@ == name@ + descriptor_suffix(),
{
    let mut r = String::from_str(name);
    r.append(".lua");
    r
}

/// The name of the file that `name` would describe, if `name` carries the
/// descriptor suffix.
pub fn described_name(name: &str) -> (r: Option<String>)
    ensures
        r is Some <==> descriptor_suffix().is_suffix_of(name@),
        r matches Some(base) ==> base@ + descriptor_suffix() == name@,
{
    proof {
        reveal_strlit(".lua");
    }
    let n = name.unicode_len();
    if n < 4 {
        return None;
    }
    let ends = name.get_char(n - 4) == '.' && name.get_char(n - 3) == 'l' && name.get_char(n - 2)
        == 'u' && name.get_char(n - 1) == 'a';
    if !ends {
        assert(!descriptor_suffix().is_suffix_of(name@)) by {
            if descriptor_suffix().is_suffix_of(name@) {
                assert(name@.subrange(n - 4, n as int)[0] == name@[n - 4]);
                assert(name@.subrange(n - 4, n as int)[1] == name@[n - 3]);
                assert(name@.subrange(n - 4, n as int)[2] == name@[n - 2]);
                assert(name@.subrange(n - 4, n as int)[3] == name@[n - 1]);
            }
        }
        return None;
    }
    assert(name@.subrange(n - 4, n as int) =~= descriptor_suffix());
    let base = String::from_str(name.substring_char(0, n - 4));
    assert(base@ + descriptor_suffix() =~= name@);
    Some(base)
}

/// Whether `name` is the descriptor of one of `siblings`, the names in its
/// directory; a suffixed file without such a sibling is an ordinary file.
pub fn is_descriptor_of_sibling(name: &str, siblings: &Vec<String>) -> (r: bool)
    ensures
        r == exists|i: int|
            0 <= i < siblings@.len() && #[trigger] siblings@[i]@ + descriptor_suffix() == name@,
{
    proof {
        reveal_strlit(".lua");
    }
    let base = match described_name(name) {
        Some(b) => b,
        None => {
            assert forall|i: int| 0 <= i < siblings@.len() implies #[trigger] siblings@[i]@
                + descriptor_suffix() != name@ by {
                if siblings@[i]@ + descriptor_suffix() == name@ {
                    assert(name@.subrange(name@.len() - 4, name@.len() as int)
                        =~= descriptor_suffix());
                }
            }
            return false;
        },
    };
    let mut i: usize = 0;
    while i < siblings.len()
        invariant
            base@ + descriptor_suffix() == name@,
            descriptor_suffix().len() == 4,
            0 <= i <= siblings@.len(),
            forall|j: int| 0 <= j < i ==> #[trigger] siblings@[j]@ + descriptor_suffix() != name@,
        decreases siblings@.len() - i,
    {
        if same_text(siblings[i].as_str(), base.as_str()) {
            return true;
        }
        proof {
            if siblings@[i as int]@ + descriptor_suffix() == name@ {
                assert(siblings@[i as int]@ =~= name@.subrange(0, name@.len() - 4));
                assert(base@ =~= name@.subrange(0, name@.len() - 4));
            }
        }
        i = i + 1;
    }
    false
}

/// The destination path, relative to the destination root, of the source
/// file at `rel`.
pub fn target_rel_path(rel: &Vec<String>, rename_to: &Option<String>) -> (r: Vec<String>)
    requires
        rel@.len() > 0,
    ensures
        names(r@) == renamed(names(rel@), opt_view(*rename_to)),
{
    let mut r: Vec<String> = Vec::new();
    let last = rel.len() - 1;
    let mut i: usize = 0;
    while i < last
        invariant
            last == rel@.len() - 1,
            0 <= i <= last,
            r@.len() == i,
            forall|j: int| 0 <= j < i ==> #[trigger] r@[j]@ == rel@[j]@,
        decreases last - i,
    {
        r.push(rel[i].clone());
        i = i + 1;
    }
    match rename_to {
        Some(n) => r.push(n.clone()),
        None => r.push(rel[last].clone()),
    }
    assert(names(r@) =~= renamed(names(rel@), opt_view(*rename_to)));
    r
}

/// `p` for display, with the home directory written as `~`.
pub fn shorten_home(p: &str, home: &Option<String>) -> (r: String)
    ensures
        r@ == shortened(p@, opt_view(*home)),
{
    if let Some(h) = home {
        let hl = h.unicode_len();
        let pl = p.unicode_len();
        if hl <= pl {
            let mut i: usize = 0;
            while i < hl
                invariant
                    hl == h@.len(),
                    opt_view(*home) == Some(h@),
                    pl == p@.len(),
                    hl <= pl,
                    0 <= i <= hl,
                    forall|j: int| 0 <= j < i ==> h@[j] == p@[j],
                decreases hl - i,
            {
                if h.get_char(i) != p.get_char(i) {
                    assert(!h@.is_prefix_of(p@)) by {
                        if h@.is_prefix_of(p@) {
                            assert(h@[i as int] == p@.subrange(0, hl as int)[i as int]);
                        }
                    }
                    return String::from_str(p);
                }
                i = i + 1;
            }
            assert(h@.is_prefix_of(p@));
            let mut r = String::from_str("~");
            proof {
                reveal_strlit("~");
            }
            r.append(p.substring_char(hl, pl));
            assert(r@ =~= seq!['~'] + p@.skip(hl as int));
            return r;
        }
    }
    String::from_str(p)
}

/// Resolves `~` and a leading `~/` against the home directory; any other
/// path is returned as given.
pub fn expand_tilde(p: &str, home: &Option<String>) -> (r: Result<String, ConfigError>)
    ensures
        seq!['~', '/'].is_prefix_of(p@) ==> match home {
            Some(h) => (r matches Ok(s) && s@ == joined_path(h@, p@.skip(2))),
            None => r == Err::<String, ConfigError>(ConfigError::HomeUnset),
        },
        p@ == seq!['~'] ==> match home {
            Some(h) => (r matches Ok(s) && s@ == h@),
            None => r == Err::<String, ConfigError>(ConfigError::HomeUnset),
        },
        !seq!['~', '/'].is_prefix_of(p@) && p@ != seq!['~'] ==> (r matches Ok(s) && s@ == p@),
{
    let n = p.unicode_len();
    if n >= 2 && p.get_char(0) == '~' && p.get_char(1) == '/' {
        match home {
            Some(h) => Ok(join_path(h.as_str(), p.substring_char(2, n))),
            None => Err(ConfigError::HomeUnset),
        }
    } else if n == 1 && p.get_char(0) == '~' {
        assert(p@ =~= seq!['~']);
        match home {
            Some(h) => Ok(h.clone()),
            None => Err(ConfigError::HomeUnset),
        }
    } else {
        assert(!seq!['~', '/'].is_prefix_of(p@) && p@ != seq!['~']) by {
            if seq!['~', '/'].is_prefix_of(p@) {
                assert(p@[0] == seq!['~', '/'][0]);
                assert(p@[1] == seq!['~', '/'][1]);
            }
            if p@ == seq!['~'] {
                assert(p@[0] == '~');
            }
        }
        Ok(String::from_str(p))
    }
}

/// Expanding a path under the home directory after shortening it gives the
/// path back.
pub proof fn lemma_expand_shortened(home: Seq<char>, rest: Seq<char>)
    requires
        home.len() > 0,
        home.last() != '/',
        rest.len() == 0 || rest[0] != '/',
    ensures
        shortened(home + seq!['/'] + rest, Some(home)) == seq!['~', '/'] + rest,
        joined_path(home, (seq!['~', '/'] + rest).skip(2)) == home + seq!['/'] + rest,
{
    let p = home + seq!['/'] + rest;
    assert(home.is_prefix_of(p)) by {
        assert(p.subrange(0, home.len() as int) =~= home);
    }
    assert(seq!['~'] + p.skip(home.len() as int) =~= seq!['~', '/'] + rest);
    assert((seq!['~', '/'] + rest).skip(2) =~= rest);
}


} // verus!
