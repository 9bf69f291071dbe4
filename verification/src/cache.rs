//! The on-disk list of available packages: where it lives, when it is
//! fresh, and how its text is read and written.
use vstd::prelude::*;

use crate::text::{
    chars_of, is_trimmed, lemma_trim_trimmed, line_len, lines, owned, push_char, push_str, split_lines,
    string_of, strip_cr, strs, trim, trim_chars,
};

verus! {

/// How long, in seconds, the cached package list stays fresh: five days.
pub const CACHE_TTL_SECS: u64 = 432000;

/// The location of the cached list of available packages.
#[derive(Debug, Clone)]
pub struct PackageCache {
    path: String,
}

/// `base` with the relative path component `component` appended, the way a
/// path buffer appends it: a `/` is put between them unless `base` is empty
/// or already ends with one.
pub open spec fn join_path(base: Seq<char>, component: Seq<char>) -> Seq<char> {
    if base.len() > 0 && base.last() != '/' {
        base + seq!['/'] + component
    } else {
        base + component
    }
}

/// The cache directory chosen from `XDG_CACHE_HOME` and `HOME`: the first
/// when it is set and not empty, else `.cache` under the second.
pub open spec fn cache_base(xdg_cache_home: Option<Seq<char>>, home: Option<Seq<char>>) -> Option<
    Seq<char>,
> {
    match xdg_cache_home {
        Some(x) if x.len() > 0 => Some(x),
        _ => match home {
            Some(h) => Some(join_path(h, ".cache"@)),
            None => None,
        },
    }
}

/// The cache file for a cache directory: `pack/cache` under it.
pub open spec fn cache_file(base: Seq<char>) -> Seq<char> {
    join_path(join_path(base, "pack"@), "cache"@)
}

/// The message given when neither directory is known.
pub open spec fn no_cache_dir_message() -> Seq<char> {
    "XDG_CACHE_HOME veya HOME ayarlı değil"@
}

fn path_join(base: &str, component: &str) -> (r: String)
    requires
        component@.len() > 0,
    ensures
        r@ == join_path(base@, component@),
{
    let b = chars_of(base);
    let mut r = owned(base);
    if b.len() > 0 && b[b.len() - 1] != '/' {
        push_char(&mut r, '/');
    }
    push_str(&mut r, component);
    r
}

/// The text of a cache file that lists `packages`: each followed by a line feed.
pub open spec fn cache_text(packages: Seq<Seq<char>>) -> Seq<char>
    decreases packages.len(),
{
    if packages.len() == 0 {
        seq![]
    } else {
        packages[0] + seq!['\n'] + cache_text(packages.drop_first())
    }
}

/// The trimmed non-empty lines among `lines`, in order.
pub open spec fn nonblank_trimmed(lines: Seq<Seq<char>>) -> Seq<Seq<char>>
    decreases lines.len(),
{
    if lines.len() == 0 {
        seq![]
    } else {
        let t = trim(lines[0]);
        if t.len() > 0 {
            seq![t] + nonblank_trimmed(lines.drop_first())
        } else {
            nonblank_trimmed(lines.drop_first())
        }
    }
}

/// The packages that a cache file with text `text` lists: its lines, trimmed,
/// without the empty ones.
pub open spec fn cache_entries(text: Seq<char>) -> Seq<Seq<char>> {
    nonblank_trimmed(lines(text))
}

/// A package name that a cache file can hold and give back unchanged: not
/// empty, no line feed, no white space at either end.
pub open spec fn is_cacheable(p: Seq<char>) -> bool {
    &&& p.len() > 0
    &&& is_trimmed(p)
    &&& forall|i: int| 0 <= i < p.len() ==> #[trigger] p[i] != '\n'
}

impl View for PackageCache {
    type V = Seq<char>;

    /// A cache is seen as the path of its file.
    closed spec fn view(&self) -> Seq<char> {
        self.path@
    }
}

impl PackageCache {
    /// The cache at `path`.
    pub fn at(path: String) -> (c: PackageCache)
        ensures
            c@ == path@,
    {
        PackageCache { path }
    }

    /// The cache for the environment's `XDG_CACHE_HOME` and `HOME` values:
    /// `pack/cache` under the first when it is set and not empty, else under
    /// `.cache` in the second; an error when neither is there.
    pub fn from_base_dirs(xdg_cache_home: Option<String>, home: Option<String>) -> (r: Result<
        PackageCache,
        String,
    >)
        ensures
            match cache_base(
                match xdg_cache_home {
                    Some(x) => Some(x@),
                    None => None,
                },
                match home {
                    Some(h) => Some(h@),
                    None => None,
                },
            ) {
                Some(base) => r matches Ok(c) && c@ == cache_file(base),
                None => r matches Err(e) && e@ == no_cache_dir_message(),
            },
    {
        proof {
            reveal_strlit(".cache");
            reveal_strlit("pack");
            reveal_strlit("cache");
        }
        let xdg = match xdg_cache_home {
            Some(x) => if x.as_str().unicode_len() > 0 {
                Some(x)
            } else {
                None
            },
            None => None,
        };
        let base = match xdg {
            Some(x) => x,
            None => match home {
                Some(h) => path_join(h.as_str(), ".cache"),
                None => {
                    return Err(owned("XDG_CACHE_HOME veya HOME ayarlı değil"));
                },
            },
        };
        let dir = path_join(base.as_str(), "pack");
        let path = path_join(dir.as_str(), "cache");
        Ok(PackageCache { path })
    }

    /// The path of the cache file.
    pub fn path(&self) -> (p: &str)
        ensures
            p@ == self@,
    {
        self.path.as_str()
    }

    /// Whether a cache file of the given age (whole seconds and nanoseconds
    /// beyond them) is still fresh: at most five days old.
    pub fn is_fresh_age(age_secs: u64, age_subsec_nanos: u32) -> (b: bool)
        ensures
            b == (age_secs < CACHE_TTL_SECS || (age_secs == CACHE_TTL_SECS && age_subsec_nanos
                == 0)),
    {
        age_secs < CACHE_TTL_SECS || (age_secs == CACHE_TTL_SECS && age_subsec_nanos == 0)
    }

    /// The packages listed by the text of a cache file: each line trimmed,
    /// empty lines left out.
    pub fn parse_contents(text: &str) -> (packages: Vec<String>)
        ensures
            strs(packages@) == cache_entries(text@),
    {
        let chars = chars_of(text);
        let ls = split_lines(chars.as_slice());
        let ghost all = lines(text@);
        let mut packages: Vec<String> = Vec::new();
        let mut i: usize = 0;
        assert(all.skip(0) =~= all);
        while i < ls.len()
            invariant
                i <= ls@.len(),
                ls@.len() == all.len(),
                all == lines(text@),
                forall|k: int| 0 <= k < ls@.len() ==> (#[trigger] ls@[k])@ == all[k],
                strs(packages@) + nonblank_trimmed(all.skip(i as int)) == nonblank_trimmed(all),
            decreases ls@.len() - i,
        {
            let t = trim_chars(ls[i].as_slice());
            proof {
                assert(all.skip(i as int).drop_first() =~= all.skip(i + 1));
                assert(all.skip(i as int)[0] == all[i as int]);
            }
            if t.len() > 0 {
                let s = string_of(t.as_slice());
                let ghost before = strs(packages@);
                packages.push(s);
                proof {
                    assert(strs(packages@) =~= before.push(t@));
                    assert(before.push(t@) + nonblank_trimmed(all.skip(i + 1)) =~= before + (seq![
                        t@,
                    ] + nonblank_trimmed(all.skip(i + 1))));
                }
            }
            i += 1;
        }
        proof {
            assert(all.skip(i as int) =~= seq![]);
            assert(strs(packages@) + seq![] =~= strs(packages@));
        }
        packages
    }

    /// The text of a cache file listing `packages`, one per line.
    pub fn render_contents(packages: &[String]) -> (text: String)
        ensures
            text@ == cache_text(strs(packages@)),
    {
        let ghost all = strs(packages@);
        let mut text = String::new();
        let mut i: usize = 0;
        assert(all.skip(0) =~= all);
        while i < packages.len()
            invariant
                i <= packages@.len(),
                all == strs(packages@),
                text@ + cache_text(all.skip(i as int)) == cache_text(all),
            decreases packages@.len() - i,
        {
            let ghost before = text@;
            push_str(&mut text, packages[i].as_str());
            push_char(&mut text, '\n');
            proof {
                assert(all.skip(i as int).drop_first() =~= all.skip(i + 1));
                assert(all.skip(i as int)[0] == packages@[i as int]@);
                assert(text@ + cache_text(all.skip(i + 1)) =~= before + cache_text(
                    all.skip(i as int),
                ));
            }
            i += 1;
        }
        proof {
            assert(all.skip(i as int) =~= seq![]);
            assert(text@ + seq![] =~= text@);
        }
        text
    }
}

proof fn lemma_line_len_of_entry(p: Seq<char>, rest: Seq<char>)
    requires
        forall|i: int| 0 <= i < p.len() ==> #[trigger] p[i] != '\n',
    ensures
        line_len(p + seq!['\n'] + rest) == p.len(),
    decreases p.len(),
{
    let s = p + seq!['\n'] + rest;
    if p.len() > 0 {
        assert(s[0] == p[0]);
        assert(s.drop_first() =~= p.drop_first() + seq!['\n'] + rest);
        lemma_line_len_of_entry(p.drop_first(), rest);
    } else {
        assert(s[0] == '\n');
    }
}

/// A cache file written with `packages` reads back as exactly `packages`,
/// when every package is a name the file can hold.
pub proof fn lemma_cache_round_trip(packages: Seq<Seq<char>>)
    requires
        forall|k: int| 0 <= k < packages.len() ==> is_cacheable(#[trigger] packages[k]),
    ensures
        cache_entries(cache_text(packages)) == packages,
    decreases packages.len(),
{
    if packages.len() > 0 {
        let p = packages[0];
        let rest = packages.drop_first();
        assert(is_cacheable(p));
        assert forall|k: int| 0 <= k < rest.len() implies is_cacheable(#[trigger] rest[k]) by {
            assert(rest[k] == packages[k + 1]);
        }
        lemma_cache_round_trip(rest);
        let t = cache_text(packages);
        let r = cache_text(rest);
        assert(t == p + seq!['\n'] + r);
        lemma_line_len_of_entry(p, r);
        assert(t.take(p.len() as int) =~= p);
        assert(t.skip(p.len() as int + 1) =~= r);
        assert(t[p.len() as int] == '\n');
        assert(p.last() != '\r');
        assert(strip_cr(p) == p);
        assert(lines(t) == seq![p] + lines(r));
        lemma_trim_trimmed(p);
        assert((seq![p] + lines(r)).drop_first() =~= lines(r));
        assert(nonblank_trimmed(seq![p] + lines(r)) == seq![p] + nonblank_trimmed(lines(r)));
        assert(seq![p] + rest =~= packages);
    } else {
        assert(cache_text(packages) =~= seq![]);
    }
}

} // verus!
