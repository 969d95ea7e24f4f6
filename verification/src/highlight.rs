//! The highlight selector: a pure, total function from the session's path
//! and the chosen theme to a highlighting configuration. The configuration
//! carries the file extension of the last path component — or the fallback
//! extension when the path is absent or has none — and the theme, nothing
//! else; actual colouring is the view layer's business.

use vstd::prelude::*;

use crate::text::copy_range;

verus! {

/// A syntax-highlighting colour theme.
#[derive(Clone, Copy, Debug, PartialEq, Eq, Structural)]
pub enum ThemeId {
    SolarizedDark,
    InspiredGithub,
    Base16Eighties,
    Base16Mocha,
    Base16Ocean,
}

/// The derived highlighting configuration: purely a function of the path's
/// extension and the theme, never persisted.
#[derive(Debug)]
pub struct HighlightConfig {
    pub theme: ThemeId,
    pub extension: Vec<char>,
}

/// The extension the selector falls back to when a path is absent or has
/// none.
pub open spec fn fallback_extension() -> Seq<char> {
    seq!['r', 's']
}

/// The number of characters after the final `'.'` of the last path
/// component, scanning from the end: a `'/'` ends the scan with no
/// extension, and a `'.'` that starts the last component (a hidden file)
/// yields none either.
pub open spec fn ext_len(p: Seq<char>) -> Option<int>
    decreases p.len(),
{
    if p.len() == 0 {
        None
    } else if p.last() == '/' {
        None
    } else if p.last() == '.' {
        if p.len() >= 2 && p[p.len() - 2] != '/' {
            Some(0)
        } else {
            None
        }
    } else {
        match ext_len(p.drop_last()) {
            Some(n) => Some(n + 1),
            None => None,
        }
    }
}

/// The extension of a path: the characters after the final `'.'` of its
/// last component, absent when that component has none usable.
pub open spec fn path_extension(p: Seq<char>) -> Option<Seq<char>> {
    match ext_len(p) {
        Some(n) => Some(p.subrange(p.len() - n, p.len() as int)),
        None => None,
    }
}

/// The extension the highlighting is keyed by: the path's, or the fallback
/// when the path is absent or has no extension.
pub open spec fn highlight_extension(p: Option<Seq<char>>) -> Seq<char> {
    match p {
        Some(path) => match path_extension(path) {
            Some(e) => e,
            None => fallback_extension(),
        },
        None => fallback_extension(),
    }
}

proof fn lemma_ext_len_bounds(p: Seq<char>)
    ensures
        match ext_len(p) {
            Some(n) => 0 <= n <= p.len(),
            None => true,
        },
    decreases p.len(),
{
    if p.len() > 0 && p.last() != '/' && p.last() != '.' {
        lemma_ext_len_bounds(p.drop_last());
    }
}

/// The extension of the path, absent when it has none.
pub fn extension_of(path: &Vec<char>) -> (r: Option<Vec<char>>)
    ensures
        match r {
            Some(e) => path_extension(path@) == Some(e@),
            None => path_extension(path@) is None,
        },
{
    proof {
        lemma_ext_len_bounds(path@);
    }
    let n = path.len();
    let mut i: usize = n;
    proof {
        assert(path@.subrange(0, n as int) =~= path@);
    }
    while i > 0
        invariant
            i <= n,
            n == path@.len(),
            ext_len(path@) == match ext_len(path@.subrange(0, i as int)) {
                Some(k) => Some(k + (n - i)),
                None => None::<int>,
            },
        decreases i,
    {
        let ghost pre = path@.subrange(0, i as int);
        proof {
            assert(pre.len() == i);
            assert(pre.last() == path@[i - 1]);
            assert(pre.drop_last() =~= path@.subrange(0, i - 1));
        }
        let c = path[i - 1];
        if c == '/' {
            return None;
        } else if c == '.' {
            if i >= 2 && path[i - 2] != '/' {
                proof {
                    assert(pre[i - 2] == path@[i - 2]);
                    assert(ext_len(pre) == Some(0int));
                    assert(ext_len(path@) == Some(n - i as int));
                    assert(path@.subrange(n - (n - i) as int, n as int) =~= path@.subrange(
                        i as int,
                        n as int,
                    ));
                }
                let e = copy_range(path, i, n);
                return Some(e);
            } else {
                proof {
                    if i >= 2 {
                        assert(pre[i - 2] == path@[i - 2]);
                    }
                    assert(ext_len(pre) is None);
                }
                return None;
            }
        }
        i = i - 1;
    }
    proof {
        assert(path@.subrange(0, 0) =~= Seq::<char>::empty());
    }
    None
}

/// Select the highlighting for a session: total and deterministic, keyed by
/// the path's extension with a plain fallback, and carrying the chosen theme
/// through unchanged.
pub fn select_highlighting(path: Option<&Vec<char>>, theme: ThemeId) -> (cfg: HighlightConfig)
    ensures
        cfg.theme == theme,
        cfg.extension@ == highlight_extension(
            match path {
                Some(p) => Some(p@),
                None => None,
            },
        ),
{
    let extension = match path {
        Some(p) => match extension_of(p) {
            Some(e) => e,
            None => fallback_vec(),
        },
        None => fallback_vec(),
    };
    HighlightConfig { theme, extension }
}

/// The fallback extension as a vector.
fn fallback_vec() -> (r: Vec<char>)
    ensures
        r@ == fallback_extension(),
{
    let mut r: Vec<char> = Vec::new();
    r.push('r');
    r.push('s');
    proof {
        assert(r@ =~= fallback_extension());
    }
    r
}

} // verus!
