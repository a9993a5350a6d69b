//! The older map listing: which entries of a map directory are maps, read
//! off their file names. The process edge lists the directory; the logic
//! here picks the `.json` entries and strips their extension.
use vstd::prelude::*;
use vstd::string::*;
use crate::error::Error;
use crate::text;

verus! {

/// The map names among a directory's entries: every path ending in
/// `.json`, in order, with the extension removed.
pub open spec fn spec_map_names(ps: Seq<Seq<char>>) -> Seq<Seq<char>>
    decreases ps.len(),
{
    if ps.len() == 0 {
        Seq::empty()
    } else {
        let rest = spec_map_names(ps.drop_last());
        let p = ps.last();
        if p.len() >= 5 && p.subrange(p.len() - 5, p.len() as int) == ".json"@ {
            rest.push(p.subrange(0, p.len() - 5))
        } else {
            rest
        }
    }
}

/// The views of a sequence of strings.
pub open spec fn spec_path_views(ss: Seq<String>) -> Seq<Seq<char>> {
    ss.map_values(|s: String| s@)
}

/// Index over a map directory, marking which entries are maps.
pub struct MapIndex {}

impl MapIndex {
    /// Lists the maps among the given directory entries.
    pub fn available_maps(paths: &Vec<String>) -> (r: Vec<String>)
        ensures
            spec_path_views(r@) == spec_map_names(spec_path_views(paths@)),
    {
        let n = paths.len();
        let mut ret: Vec<String> = Vec::new();
        let mut i: usize = 0;
        proof {
            assert(spec_path_views(paths@).subrange(0, 0) =~= Seq::<Seq<char>>::empty());
            assert(spec_path_views(ret@) =~= Seq::<Seq<char>>::empty());
        }
        while i < n
            invariant
                i <= n,
                n == paths@.len(),
                spec_path_views(ret@) == spec_map_names(
                    spec_path_views(paths@).subrange(0, i as int),
                ),
            decreases n - i,
        {
            proof {
                let pre = spec_path_views(paths@).subrange(0, i + 1);
                assert(pre.drop_last() =~= spec_path_views(paths@).subrange(0, i as int));
                assert(pre.last() == paths@[i as int]@);
            }
            let p = &paths[i];
            if text::str_ends_with(p.as_str(), ".json") {
                proof {
                    reveal_strlit(".json");
                }
                let m = p.as_str().unicode_len();
                let name = String::from_str(p.as_str().substring_char(0, m - 5));
                ret.push(name);
                proof {
                    assert(spec_path_views(ret@) =~= spec_map_names(
                        spec_path_views(paths@).subrange(0, i + 1),
                    ));
                }
            } else {
                proof {
                    reveal_strlit(".json");
                }
            }
            i = i + 1;
        }
        proof {
            assert(spec_path_views(paths@).subrange(0, n as int) =~= spec_path_views(paths@));
        }
        ret
    }
}

/// Map walker struct holding the information about where to search for
/// maps.
pub struct MapWalker {
    path: String,
    verbose: bool,
}

impl MapWalker {
    /// The directory this walker searches.
    pub closed spec fn spec_path(&self) -> Seq<char> {
        self.path@
    }

    /// Whether the walker is in verbose mode.
    pub closed spec fn spec_verbose(&self) -> bool {
        self.verbose
    }

    /// Creates a new instance of MapWalker.
    pub fn new(path: String, verbose: bool) -> (r: Result<MapWalker, Error>)
        ensures
            r matches Ok(w) && w.spec_path() == path@ && w.spec_verbose() == verbose,
    {
        Ok(MapWalker { path, verbose })
    }

    /// Returns the directory this walker searches.
    pub fn path(&self) -> (r: &String)
        ensures
            r@ == self.spec_path(),
    {
        &self.path
    }

    /// Returns whether the walker is in verbose mode.
    pub fn is_verbose(&self) -> (r: bool)
        ensures
            r == self.spec_verbose(),
    {
        self.verbose
    }
}

} // verus!
