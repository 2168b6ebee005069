//! Choosing the layout and the colour capability from the command line and the terminal.
use crate::style::{Colour, Format};
use crate::text::same_text;
use vstd::prelude::*;
use vstd::string::StrSliceExecFns;

verus! {

/// Why the configured layout cannot be used.
#[derive(Debug)]
pub enum FormatError {
    Unknown(String),
    /// The bare layout prints only looked-up fields, and none were given.
    BareWithoutFields,
}

/// Whether `needle` occurs in `hay`.
pub open spec fn occurs(hay: Seq<char>, needle: Seq<char>) -> bool {
    exists|i: int| 0 <= i && i + needle.len() <= hay.len() && #[trigger] hay.subrange(i, i + needle.len()) == needle
}

/// Whether `needle` occurs in `hay`.
pub fn contains_text(hay: &str, needle: &str) -> (r: bool)
    ensures
        r == occurs(hay@, needle@),
{
    let n = hay.unicode_len();
    let m = needle.unicode_len();
    if m > n {
        assert(!occurs(hay@, needle@));
        return false;
    }
    let mut i: usize = 0;
    while i <= n - m
        invariant
            n == hay@.len(),
            m == needle@.len(),
            m <= n,
            i <= n - m + 1,
            forall|k: int| 0 <= k < i ==> #[trigger] hay@.subrange(k, k + m) != needle@,
        decreases n - i,
    {
        let mut j: usize = 0;
        let mut same = true;
        while j < m
            invariant
                n == hay@.len(),
                m == needle@.len(),
                i + m <= n,
                j <= m,
                same == (forall|q: int| 0 <= q < j ==> hay@[i + q] == needle@[q]),
            decreases m - j,
        {
            if hay.get_char(i + j) != needle.get_char(j) {
                same = false;
            }
            j = j + 1;
        }
        if same {
            assert(hay@.subrange(i as int, i + m) =~= needle@);
            return true;
        }
        assert(exists|q: int| 0 <= q < m && hay@[i + q] != needle@[q]);
        assert(hay@.subrange(i as int, i + m) != needle@) by {
            let q = choose|q: int| 0 <= q < m && hay@[i + q] != needle@[q];
            assert(hay@.subrange(i as int, i + m)[q] == hay@[i + q]);
        }
        i = i + 1;
    }
    assert(!occurs(hay@, needle@)) by {
        assert forall|k: int| 0 <= k && k + m <= n implies #[trigger] hay@.subrange(k, k + m) != needle@ by {
            assert(k < i);
        }
    }
    false
}

/// The colour depth that a `TERM` value suggests; without one, colour only when forced.
pub open spec fn colour_depth(term: Option<Seq<char>>, try_hard: bool) -> Colour {
    match term {
        Some(t) => if occurs(t, "256"@) {
            Colour::C256
        } else if !try_hard && t == "dumb"@ {
            Colour::Plain
        } else {
            Colour::C16
        },
        None => if try_hard {
            Colour::C16
        } else {
            Colour::Plain
        },
    }
}

pub open spec fn str_view(t: Option<&str>) -> Option<Seq<char>> {
    match t {
        Some(s) => Some(s@),
        None => None,
    }
}

/// The colour depth that the terminal's `TERM` value suggests.
pub fn guess_colour_depth(term: Option<&str>, try_hard: bool) -> (r: Colour)
    ensures
        r == colour_depth(str_view(term), try_hard),
{
    match term {
        Some(t) => {
            if contains_text(t, "256") {
                Colour::C256
            } else if !try_hard && same_text(t, "dumb") {
                Colour::Plain
            } else {
                Colour::C16
            }
        },
        None => {
            if try_hard {
                Colour::C16
            } else {
                Colour::Plain
            }
        },
    }
}

/// No colour when refused; otherwise colour when forced or when output is a terminal, as deep
/// as `TERM` suggests.
pub fn pick_colour(no_colour: bool, force: bool, stdout_tty: bool, term: Option<&str>) -> (r: Colour)
    ensures
        r == if no_colour {
            Colour::Plain
        } else if force || stdout_tty {
            colour_depth(str_view(term), force)
        } else {
            Colour::Plain
        },
{
    if no_colour {
        Colour::Plain
    } else if force || stdout_tty {
        guess_colour_depth(term, force)
    } else {
        Colour::Plain
    }
}

/// The layout a name selects (`short` when none is given); the bare layout needs at least one
/// field to look up.
pub open spec fn format_named(name: Option<Seq<char>>, lookups: nat) -> Result<Format, ()> {
    match name {
        None => Ok(Format::Short),
        Some(n) => if n == "short"@ {
            Ok(Format::Short)
        } else if n == "long"@ {
            Ok(Format::Long)
        } else if n == "bare"@ && lookups > 0 {
            Ok(Format::Bare)
        } else {
            Err(())
        },
    }
}

/// Selects the layout by name.
pub fn parse_format(name: Option<&str>, lookups: &Vec<String>) -> (r: Result<Format, FormatError>)
    ensures
        r matches Ok(f) ==> format_named(str_view(name), lookups@.len()) == Ok::<Format, ()>(f),
        r is Err ==> format_named(str_view(name), lookups@.len()) is Err,
        r matches Err(FormatError::BareWithoutFields) ==> name matches Some(n) && n@ == "bare"@
            && lookups@.len() == 0,
        r matches Err(FormatError::Unknown(t)) ==> name matches Some(n) && t@ == n@ && n@
            != "bare"@,
{
    match name {
        None => Ok(Format::Short),
        Some(n) => {
            if same_text(n, "short") {
                Ok(Format::Short)
            } else if same_text(n, "long") {
                Ok(Format::Long)
            } else if same_text(n, "bare") {
                if lookups.len() == 0 {
                    Err(FormatError::BareWithoutFields)
                } else {
                    Ok(Format::Bare)
                }
            } else {
                Err(FormatError::Unknown(n.to_string()))
            }
        },
    }
}

} // verus!
