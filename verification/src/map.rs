//! The map loader's logic: reading map descriptions out of configuration
//! data and map files that the process edge has already deserialized into
//! plain `ConfValue` trees, holding them as a table of `MapInfo` records,
//! and building a finished `Map` ready to send to a client.
use vstd::prelude::*;
use vstd::string::*;
use super::alist::{spec_alist_get, spec_keys_distinct, lemma_alist_get_index, lemma_alist_get_remove, lemma_alist_get_push};
use super::error::{Error, ErrorKind};
use super::text;
use super::version;
use super::version::SemVer;

pub mod legacy;

verus! {

/// Defines the width of the map.
pub const WIDTH: usize = 20;

/// A configuration value as plain data: what the map loader reads out of
/// the deserialized configuration and map files. Values the loader never
/// reads (dates, floats) arrive as `Other`.
#[derive(Debug)]
pub enum ConfValue {
    /// a text value
    Str(String),

    /// an integer value
    Int(i64),

    /// a boolean value
    Bool(bool),

    /// an array of values
    Arr(Vec<ConfValue>),

    /// a table of key/value pairs
    Table(Vec<(String, ConfValue)>),

    /// a value of a kind the loader never reads
    Other,
}

/// Table lookup on a configuration value: the entry under the key, when
/// the value is a table that has one.
pub open spec fn spec_get(v: ConfValue, k: Seq<char>) -> Option<ConfValue> {
    match v {
        ConfValue::Table(t) => spec_alist_get(t@, k),
        _ => None,
    }
}

/// The payload of a text value; an empty sequence for any other kind.
pub open spec fn spec_str_view(c: ConfValue) -> Seq<char> {
    match c {
        ConfValue::Str(s) => s@,
        _ => Seq::empty(),
    }
}

/// The payload of an integer value; zero for any other kind.
pub open spec fn spec_int_of(c: ConfValue) -> i64 {
    match c {
        ConfValue::Int(x) => x,
        _ => 0,
    }
}

/// Whether every element of a value sequence is a text value.
pub open spec fn spec_all_strings(vs: Seq<ConfValue>) -> bool {
    forall|i: int| 0 <= i < vs.len() ==> vs[i] is Str
}

/// The texts of a value sequence, in order.
pub open spec fn spec_string_views(vs: Seq<ConfValue>) -> Seq<Seq<char>>
    decreases vs.len(),
{
    if vs.len() == 0 {
        Seq::empty()
    } else {
        spec_string_views(vs.drop_last()).push(spec_str_view(vs.last()))
    }
}

/// The views of a sequence of strings.
pub open spec fn spec_views(ss: Seq<String>) -> Seq<Seq<char>> {
    ss.map_values(|s: String| s@)
}

/// Looks a key up in a configuration table.
pub fn conf_get<'a>(v: &'a ConfValue, k: &str) -> (r: Option<&'a ConfValue>)
    ensures
        r is None ==> spec_get(*v, k@) is None,
        r matches Some(c) ==> spec_get(*v, k@) == Some(*c),
{
    match v {
        ConfValue::Table(t) => {
            let n = t.len();
            proof {
                assert(t@.subrange(0, n as int) =~= t@);
            }
            let mut i: usize = 0;
            while i < n
                invariant
                    i <= n,
                    n == t@.len(),
                    spec_get(*v, k@) == spec_alist_get(t@, k@),
                    spec_alist_get(t@, k@) == spec_alist_get(t@.subrange(i as int, n as int), k@),
                decreases n - i,
            {
                if text::str_equal(t[i].0.as_str(), k) {
                    proof {
                        let tail = t@.subrange(i as int, n as int);
                        assert(tail[0] == t@[i as int]);
                        assert(tail[0].0@ == k@);
                        assert(spec_alist_get(tail, k@) == Some(tail[0].1));
                        assert(spec_alist_get(t@, k@) == Some(t@[i as int].1));
                        assert(spec_get(*v, k@) == Some(t@[i as int].1));
                    }
                    return Some(&t[i].1);
                }
                proof {
                    let tail = t@.subrange(i as int, n as int);
                    assert(tail[0] == t@[i as int]);
                    assert(tail.drop_first() =~= t@.subrange(i + 1, n as int));
                }
                i = i + 1;
            }
            proof {
                assert(t@.subrange(n as int, n as int) =~= Seq::<(String, ConfValue)>::empty());
            }
            None
        },
        _ => None,
    }
}

/// The mathematical content of a `MapInfo` record.
pub ghost struct MapInfoModel {
    /// name of the map
    pub name: Seq<char>,

    /// file to load the map from
    pub file: Seq<char>,

    /// version of the map loader to use
    pub version: SemVer,

    /// authors, when the configuration names them well
    pub author: Option<Seq<Seq<char>>>,

    /// verbose mode
    pub verbose: bool,
}

/// The mathematical content of a finished `Map`.
pub ghost struct MapModel {
    /// name the map file declares
    pub name: Seq<char>,

    /// feature list, when one is declared
    pub features: Option<Seq<Seq<char>>>,

    /// the tile rows, each `WIDTH` bytes
    pub rows: Seq<Seq<u8>>,
}

/// The ways reading configuration data fails, as plain data.
pub ghost enum ConfErr {
    /// a needed field is missing or of the wrong type
    FieldNotExists(Seq<char>),

    /// a version text did not parse
    VersionNotParsable(Seq<char>),

    /// the declared map format is not supported
    FormatNotSupported,
}

/// Whether an `Error` carries exactly the failure a `ConfErr` describes.
pub open spec fn spec_err_matches(e: Error, m: ConfErr) -> bool {
    match m {
        ConfErr::FieldNotExists(f) => e.spec_kind() matches ErrorKind::FieldNotExists(d) && d@
            == f,
        ConfErr::VersionNotParsable(t) => e.spec_kind() matches ErrorKind::VersionNotParsable(d)
            && d@ == t,
        ConfErr::FormatNotSupported => e.spec_kind() == ErrorKind::FormatNotSupported,
    }
}

/// The authors a map's configuration table declares: one name, a list of
/// names when all of them are texts, nothing otherwise.
pub open spec fn spec_author(v: ConfValue) -> Option<Seq<Seq<char>>> {
    match spec_get(v, "author"@) {
        Option::None => None,
        Option::Some(a) => match a {
            ConfValue::Str(c) => Some(seq![c@]),
            ConfValue::Arr(vs) => if spec_all_strings(vs@) {
                Some(spec_string_views(vs@))
            } else {
                None
            },
            _ => None,
        },
    }
}

/// The format text a map's configuration table declares, with its default.
pub open spec fn spec_format_text(v: ConfValue) -> Seq<char> {
    match spec_get(v, "format"@) {
        Option::Some(ConfValue::Str(f)) => f@,
        _ => "JSON"@,
    }
}

/// What reading one map's configuration table yields: the record, or the
/// exact error, in the order the fields are checked — path, version, then
/// the format gate.
pub open spec fn spec_from_conf_one(v: ConfValue, name: Seq<char>, verbose: bool) -> Result<
    MapInfoModel,
    ConfErr,
> {
    match spec_get(v, "path"@) {
        Option::Some(ConfValue::Str(file)) => match spec_get(v, "version"@) {
            Option::Some(ConfValue::Str(vs)) => match version::spec_parse_version(vs@) {
                Option::Some(t) => if text::spec_eq_ci(spec_format_text(v), "json"@) {
                    Ok(
                        MapInfoModel {
                            name,
                            file: file@,
                            version: version::spec_semver_of(t),
                            author: spec_author(v),
                            verbose,
                        },
                    )
                } else {
                    Err(ConfErr::FormatNotSupported)
                },
                Option::None => Err(ConfErr::VersionNotParsable(vs@)),
            },
            _ => Err(ConfErr::FieldNotExists(name + ".version"@)),
        },
        _ => Err(ConfErr::FieldNotExists(name + ".path"@)),
    }
}

/// map format is an enum of possible loader elements for a map file.
#[derive(Debug)]
pub enum MapFormat {
    /// JSON as the javascript object notation
    JSON,
}

/// This holds a single map with all of its corresponding information; the
/// map itself is loaded only when asked for.
#[derive(Debug)]
pub struct MapInfo {
    p_name: String,
    p_file: String,
    p_version: SemVer,
    p_format: MapFormat,
    p_author: Option<Vec<String>>,
    p_verbose: bool,
}

impl MapInfo {
    /// The mathematical content of this record.
    pub closed spec fn spec_model(&self) -> MapInfoModel {
        MapInfoModel {
            name: self.p_name@,
            file: self.p_file@,
            version: self.p_version,
            author: match self.p_author {
                Option::Some(v) => Some(spec_views(v@)),
                Option::None => None,
            },
            verbose: self.p_verbose,
        }
    }

    /// Creates a new instance of the map record, with the given data
    /// filled in; no logic is involved.
    pub fn new(
        name: String,
        file: String,
        version: SemVer,
        format: MapFormat,
        author: Option<Vec<String>>,
        verbose: bool,
    ) -> (r: MapInfo)
        ensures
            r.spec_model() == (MapInfoModel {
                name: name@,
                file: file@,
                version,
                author: match author {
                    Option::Some(v) => Some(spec_views(v@)),
                    Option::None => None,
                },
                verbose,
            }),
    {
        MapInfo {
            p_name: name,
            p_file: file,
            p_version: version,
            p_format: format,
            p_author: author,
            p_verbose: verbose,
        }
    }

    /// Reads one map's configuration table into a record.
    pub fn from_conf_one(v: &ConfValue, name: String, verbose: bool) -> (r: Result<
        MapInfo,
        Error,
    >)
        ensures
            match spec_from_conf_one(*v, name@, verbose) {
                Ok(m) => r matches Ok(info) && info.spec_model() == m,
                Err(em) => r matches Err(e) && spec_err_matches(e, em),
            },
    {
        let file = match conf_get(v, "path") {
            Option::Some(ConfValue::Str(f)) => f.clone(),
            _ => {
                return Err(Error::new_field_not_exists(name.concat(".path")));
            },
        };
        let vtext = match conf_get(v, "version") {
            Option::Some(ConfValue::Str(s)) => s,
            _ => {
                return Err(Error::new_field_not_exists(name.concat(".version")));
            },
        };
        let ver = match version::parse_version(vtext.as_str()) {
            Option::Some(sv) => sv,
            Option::None => {
                return Err(Error::new(ErrorKind::VersionNotParsable(vtext.clone())));
            },
        };
        let format_ok = match conf_get(v, "format") {
            Option::Some(ConfValue::Str(f)) => text::str_equal_ci(f.as_str(), "json"),
            _ => {
                proof {
                    reveal_strlit("JSON");
                    reveal_strlit("json");
                    assert(text::spec_eq_ci("JSON"@, "json"@));
                }
                true
            },
        };
        if !format_ok {
            return Err(Error::new(ErrorKind::FormatNotSupported));
        }
        let author: Option<Vec<String>> = match conf_get(v, "author") {
            Option::None => None,
            Option::Some(a) => match a {
                ConfValue::Str(c) => {
                    let mut one: Vec<String> = Vec::new();
                    one.push(c.clone());
                    proof {
                        assert(spec_views(one@) =~= seq![c@]);
                    }
                    Some(one)
                },
                ConfValue::Arr(vs) => {
                    let n = vs.len();
                    let mut ret: Vec<String> = Vec::new();
                    let mut nan = false;
                    let mut i: usize = 0;
                    proof {
                        assert(vs@.subrange(0, 0) =~= Seq::<ConfValue>::empty());
                    }
                    while i < n
                        invariant
                            i <= n,
                            n == vs@.len(),
                            nan == !spec_all_strings(vs@.subrange(0, i as int)),
                            !nan ==> spec_views(ret@) == spec_string_views(
                                vs@.subrange(0, i as int),
                            ),
                        decreases n - i,
                    {
                        proof {
                            let pre = vs@.subrange(0, i + 1);
                            assert(pre.drop_last() =~= vs@.subrange(0, i as int));
                            assert(pre.last() == vs@[i as int]);
                            assert forall|j: int|
                                0 <= j < i + 1 implies vs@.subrange(0, i + 1)[j] == vs@[j] by {}
                        }
                        match &vs[i] {
                            ConfValue::Str(s) => {
                                ret.push(s.clone());
                                proof {
                                    if !nan {
                                        assert(spec_views(ret@) =~= spec_string_views(
                                            vs@.subrange(0, i + 1),
                                        ));
                                    }
                                }
                            },
                            _ => {
                                nan = true;
                            },
                        }
                        i = i + 1;
                    }
                    proof {
                        assert(vs@.subrange(0, n as int) =~= vs@);
                    }
                    if nan {
                        None
                    } else {
                        Some(ret)
                    }
                },
                _ => None,
            },
        };
        Ok(MapInfo::new(name, file, ver, MapFormat::JSON, author, verbose))
    }

    /// Returns the name of the map it holds information about.
    pub fn name(&self) -> (r: &String)
        ensures
            r@ == self.spec_model().name,
    {
        &self.p_name
    }

    /// Returns the file the map is loaded from.
    pub fn file(&self) -> (r: &String)
        ensures
            r@ == self.spec_model().file,
    {
        &self.p_file
    }

    /// Returns the version of the map.
    pub fn version(&self) -> (r: &SemVer)
        ensures
            *r == self.spec_model().version,
    {
        &self.p_version
    }

    /// Sets the record into verbose mode.
    pub fn verbose(&mut self)
        ensures
            final(self).spec_model() == (MapInfoModel {
                verbose: true,
                ..old(self).spec_model()
            }),
    {
        self.p_verbose = true;
    }

    /// Returns the verbose state of the record.
    pub fn is_verbose(&self) -> (r: bool)
        ensures
            r == self.spec_model().verbose,
    {
        self.p_verbose
    }

    /// Returns the authors of the map, run together as one string.
    pub fn author(&self) -> (r: Option<String>)
        ensures
            self.spec_model().author is None ==> r is None,
            self.spec_model().author matches Some(fs) ==> r matches Some(s) && s@
                == spec_concat_views(fs),
    {
        let authors = match &self.p_author {
            Option::Some(m) => m,
            Option::None => {
                return None;
            },
        };
        let n = authors.len();
        let mut ret = String::new();
        let mut i: usize = 0;
        proof {
            assert(spec_views(authors@).subrange(0, 0) =~= Seq::<Seq<char>>::empty());
        }
        while i < n
            invariant
                i <= n,
                n == authors@.len(),
                ret@ == spec_concat_views(spec_views(authors@).subrange(0, i as int)),
            decreases n - i,
        {
            ret.append(authors[i].as_str());
            proof {
                let pre = spec_views(authors@).subrange(0, i + 1);
                assert(pre.drop_last() =~= spec_views(authors@).subrange(0, i as int));
                assert(pre.last() == authors@[i as int]@);
            }
            i = i + 1;
        }
        proof {
            assert(spec_views(authors@).subrange(0, n as int) =~= spec_views(authors@));
        }
        Some(ret)
    }

    /// get_map would return a finished map ready to be sent; no map is
    /// wired up here, so it always reports the missing piece.
    pub fn get_map(&self) -> (r: Result<GameMap, Error>)
        ensures
            r matches Err(e) && (e.spec_kind() matches ErrorKind::FieldNotExists(d) && d@
                == "code"@),
    {
        Err(Error::new_field_not_exists(String::from_str("code")))
    }
}

/// A sequence of texts run together as one.
pub open spec fn spec_concat_views(fs: Seq<Seq<char>>) -> Seq<char>
    decreases fs.len(),
{
    if fs.len() == 0 {
        Seq::empty()
    } else {
        spec_concat_views(fs.drop_last()) + fs.last()
    }
}

/// GameMap holds a map ready to send to a client.
#[derive(Debug)]
pub struct GameMap {
    p_name: String,
    p_features: Option<Vec<String>>,
    p_map: Vec<Vec<u8>>,
}

impl GameMap {
    /// The mathematical content of this map.
    pub closed spec fn spec_model(&self) -> MapModel {
        MapModel {
            name: self.p_name@,
            features: match self.p_features {
                Option::Some(v) => Some(spec_views(v@)),
                Option::None => None,
            },
            rows: self.p_map@.map_values(|r: Vec<u8>| r@),
        }
    }

    /// Every row is exactly `WIDTH` tiles wide.
    pub open spec fn wf(&self) -> bool {
        forall|i: int|
            0 <= i < self.spec_model().rows.len() ==> #[trigger] self.spec_model().rows[i].len()
                == WIDTH as int
    }

    /// Returns the name of the map.
    pub fn name(&self) -> (r: String)
        ensures
            r@ == self.spec_model().name,
    {
        self.p_name.clone()
    }

    /// Checks whether the feature exists.
    pub fn feature(&self, feature: &String) -> (r: bool)
        ensures
            r == (match self.spec_model().features {
                Option::Some(fs) => fs.contains(feature@),
                Option::None => false,
            }),
    {
        let fs = match &self.p_features {
            Option::Some(t) => t,
            Option::None => {
                return false;
            },
        };
        let n = fs.len();
        let mut i: usize = 0;
        while i < n
            invariant
                i <= n,
                n == fs@.len(),
                self.spec_model().features == Some(spec_views(fs@)),
                forall|j: int| 0 <= j < i ==> fs@[j]@ != feature@,
            decreases n - i,
        {
            if text::str_equal(fs[i].as_str(), feature.as_str()) {
                proof {
                    assert(spec_views(fs@)[i as int] == feature@);
                    assert(spec_views(fs@).contains(feature@));
                    assert(self.spec_model().features == Some(spec_views(fs@)));
                }
                return true;
            }
            i = i + 1;
        }
        proof {
            assert forall|j: int| 0 <= j < spec_views(fs@).len() implies spec_views(fs@)[j]
                != feature@ by {
                assert(spec_views(fs@)[j] == fs@[j]@);
            }
            assert(!spec_views(fs@).contains(feature@));
        }
        false
    }

    /// Returns the tile rows of the map.
    pub fn rows(&self) -> (r: &Vec<Vec<u8>>)
        ensures
            r@.len() == self.spec_model().rows.len(),
            forall|i: int|
                0 <= i < r@.len() ==> #[trigger] r@[i]@ == self.spec_model().rows[i],
    {
        proof {
            assert forall|i: int|
                0 <= i < self.p_map@.len() implies #[trigger] self.p_map@[i]@
                == self.spec_model().rows[i] by {
                assert(self.spec_model().rows[i] == self.p_map@[i]@);
            }
        }
        &self.p_map
    }

    /// Returns the features of the map as one comma-separated list.
    pub fn feature_list(&self) -> (r: String)
        ensures
            self.spec_model().features is None ==> r@ == Seq::<char>::empty(),
            self.spec_model().features matches Some(fs) ==> r@ == spec_feature_list(fs),
    {
        let fs = match &self.p_features {
            Option::Some(t) => t,
            Option::None => {
                return String::new();
            },
        };
        let n = fs.len();
        let mut ret = String::new();
        let mut i: usize = 0;
        proof {
            assert(spec_views(fs@).subrange(0, 0) =~= Seq::<Seq<char>>::empty());
        }
        while i < n
            invariant
                i <= n,
                n == fs@.len(),
                ret@ == spec_feature_list(spec_views(fs@).subrange(0, i as int)),
            decreases n - i,
        {
            if i > 0 {
                ret.append(", ");
            }
            ret.append(fs[i].as_str());
            proof {
                let pre = spec_views(fs@).subrange(0, i + 1);
                assert(pre.drop_last() =~= spec_views(fs@).subrange(0, i as int));
                assert(pre.last() == fs@[i as int]@);
            }
            i = i + 1;
        }
        proof {
            assert(spec_views(fs@).subrange(0, n as int) =~= spec_views(fs@));
        }
        ret
    }
}

/// The features run together with comma separators, as `feature_list`
/// prints them.
pub open spec fn spec_feature_list(fs: Seq<Seq<char>>) -> Seq<char>
    decreases fs.len(),
{
    if fs.len() == 0 {
        Seq::empty()
    } else if fs.len() == 1 {
        fs[0]
    } else {
        spec_feature_list(fs.drop_last()) + ", "@ + fs.last()
    }
}

/// Whether every element of a value sequence is an integer value.
pub open spec fn spec_all_ints(vs: Seq<ConfValue>) -> bool {
    forall|i: int| 0 <= i < vs.len() ==> vs[i] is Int
}

/// One declared row as `WIDTH` tiles: the declared bytes, zero-padded on
/// the right, or the map error when the row is not an array of at most
/// `WIDTH` integers.
pub open spec fn spec_row(rv: ConfValue) -> Result<Seq<u8>, ConfErr> {
    match rv {
        ConfValue::Arr(cells) => if cells@.len() > WIDTH as int {
            Err(ConfErr::FieldNotExists("map"@))
        } else if !spec_all_ints(cells@) {
            Err(ConfErr::FieldNotExists("map"@))
        } else {
            Ok(
                Seq::new(
                    WIDTH as nat,
                    |i: int|
                        if i < cells@.len() {
                            spec_int_of(cells@[i]) as u8
                        } else {
                            0u8
                        },
                ),
            )
        },
        _ => Err(ConfErr::FieldNotExists("map"@)),
    }
}

/// The declared rows in order, or the error of the leftmost bad row.
pub open spec fn spec_rows(rows: Seq<ConfValue>) -> Result<Seq<Seq<u8>>, ConfErr>
    decreases rows.len(),
{
    if rows.len() == 0 {
        Ok(Seq::empty())
    } else {
        match spec_rows(rows.drop_last()) {
            Ok(rs) => match spec_row(rows.last()) {
                Ok(r) => Ok(rs.push(r)),
                Err(e) => Err(e),
            },
            Err(e) => Err(e),
        }
    }
}

/// A bad row after a clean prefix makes the whole row list bad.
proof fn lemma_rows_err(rows: Seq<ConfValue>, i: int)
    requires
        0 <= i < rows.len(),
        spec_rows(rows.subrange(0, i)) is Ok,
        spec_row(rows[i]) is Err,
    ensures
        spec_rows(rows) == Err::<Seq<Seq<u8>>, ConfErr>(ConfErr::FieldNotExists("map"@)),
    decreases rows.len(),
{
    if i == rows.len() - 1 {
        assert(rows.drop_last() =~= rows.subrange(0, i));
    } else {
        assert(rows.drop_last()[i] == rows[i]);
        assert(rows.drop_last().subrange(0, i) =~= rows.subrange(0, i));
        lemma_rows_err(rows.drop_last(), i);
    }
}

/// The declared feature list, with the `none` marker filtered out.
pub open spec fn spec_none_filtered(fs: Seq<Seq<char>>) -> Option<Seq<Seq<char>>> {
    if fs.len() == 1 && fs[0] == "none"@ {
        None
    } else {
        Some(fs)
    }
}

/// The features a map file declares, or the error when the declared list
/// holds anything but texts.
pub open spec fn spec_features(v: ConfValue) -> Result<Option<Seq<Seq<char>>>, ConfErr> {
    match spec_get(v, "features"@) {
        Option::None => Ok(None),
        Option::Some(f) => match f {
            ConfValue::Arr(vs) => if spec_all_strings(vs@) {
                Ok(spec_none_filtered(spec_string_views(vs@)))
            } else {
                Err(ConfErr::FieldNotExists("features is not string"@))
            },
            ConfValue::Str(c) => Ok(spec_none_filtered(seq![c@])),
            _ => Ok(None),
        },
    }
}

/// What loading a map file's content yields: the finished map, or the
/// exact error, checking the name, then the features, then the rows.
pub open spec fn spec_load_map(v: ConfValue) -> Result<MapModel, ConfErr> {
    match spec_get(v, "name"@) {
        Option::Some(ConfValue::Str(nm)) => match spec_features(v) {
            Ok(feats) => match spec_get(v, "map"@) {
                Option::Some(ConfValue::Arr(rows)) => match spec_rows(rows@) {
                    Ok(rs) => Ok(MapModel { name: nm@, features: feats, rows: rs }),
                    Err(e) => Err(e),
                },
                _ => Err(ConfErr::FieldNotExists("map"@)),
            },
            Err(e) => Err(e),
        },
        _ => Err(ConfErr::FieldNotExists("name"@)),
    }
}

impl MapInfo {
    /// Loads a map from its file's content, handed in as plain data, and
    /// returns the finished map.
    pub fn load_map(&self, content: &ConfValue) -> (r: Result<GameMap, Error>)
        ensures
            match spec_load_map(*content) {
                Ok(mm) => r matches Ok(m) && m.spec_model() == mm && m.wf(),
                Err(em) => r matches Err(e) && spec_err_matches(e, em),
            },
    {
        let nm = match conf_get(content, "name") {
            Option::Some(ConfValue::Str(s)) => s.clone(),
            _ => {
                return Err(Error::new_field_not_exists(String::from_str("name")));
            },
        };
        let features: Option<Vec<String>> = match conf_get(content, "features") {
            Option::None => None,
            Option::Some(f) => match f {
                ConfValue::Arr(vs) => {
                    let n = vs.len();
                    let mut fe: Vec<String> = Vec::new();
                    let mut i: usize = 0;
                    proof {
                        assert(vs@.subrange(0, 0) =~= Seq::<ConfValue>::empty());
                    }
                    while i < n
                        invariant
                            i <= n,
                            n == vs@.len(),
                            spec_all_strings(vs@.subrange(0, i as int)),
                            spec_views(fe@) == spec_string_views(vs@.subrange(0, i as int)),
                            spec_get(*content, "features"@) matches Some(fv) && fv
                                == ConfValue::Arr(*vs),
                            spec_get(*content, "name"@) matches Some(nv) && nv is Str,
                        decreases n - i,
                    {
                        proof {
                            let pre = vs@.subrange(0, i + 1);
                            assert(pre.drop_last() =~= vs@.subrange(0, i as int));
                            assert(pre.last() == vs@[i as int]);
                        }
                        match &vs[i] {
                            ConfValue::Str(s) => {
                                fe.push(s.clone());
                                proof {
                                    assert(spec_views(fe@) =~= spec_string_views(
                                        vs@.subrange(0, i + 1),
                                    ));
                                }
                            },
                            _ => {
                                proof {
                                    assert(!spec_all_strings(vs@));
                                }
                                return Err(
                                    Error::new_field_not_exists(
                                        String::from_str("features is not string"),
                                    ),
                                );
                            },
                        }
                        i = i + 1;
                    }
                    proof {
                        assert(vs@.subrange(0, n as int) =~= vs@);
                    }
                    Some(fe)
                },
                ConfValue::Str(c) => {
                    let mut one: Vec<String> = Vec::new();
                    one.push(c.clone());
                    proof {
                        assert(spec_views(one@) =~= seq![c@]);
                    }
                    Some(one)
                },
                _ => None,
            },
        };
        let features: Option<Vec<String>> = match features {
            Option::Some(f) => {
                let is_none_marker = f.len() == 1 && text::str_equal(f[0].as_str(), "none");
                proof {
                    if f@.len() == 1 {
                        assert(spec_views(f@)[0] == f@[0]@);
                    }
                }
                if is_none_marker {
                    None
                } else {
                    Some(f)
                }
            },
            Option::None => None,
        };
        let rows_val = match conf_get(content, "map") {
            Option::Some(ConfValue::Arr(rows)) => rows,
            _ => {
                return Err(Error::new_field_not_exists(String::from_str("map")));
            },
        };
        let n = rows_val.len();
        let mut pmap: Vec<Vec<u8>> = Vec::new();
        let mut i: usize = 0;
        proof {
            assert(rows_val@.subrange(0, 0) =~= Seq::<ConfValue>::empty());
            assert(pmap@.map_values(|r: Vec<u8>| r@) =~= Seq::<Seq<u8>>::empty());
        }
        while i < n
            invariant
                i <= n,
                n == rows_val@.len(),
                spec_rows(rows_val@.subrange(0, i as int)) == Ok::<Seq<Seq<u8>>, ConfErr>(
                    pmap@.map_values(|r: Vec<u8>| r@),
                ),
                forall|j: int| 0 <= j < pmap@.len() ==> #[trigger] pmap@[j]@.len() == WIDTH as int,
                spec_get(*content, "map"@) matches Some(mv) && mv == ConfValue::Arr(*rows_val),
                spec_get(*content, "name"@) matches Some(nv) && nv is Str,
                spec_features(*content) is Ok,
            decreases n - i,
        {
            proof {
                let pre = rows_val@.subrange(0, i + 1);
                assert(pre.drop_last() =~= rows_val@.subrange(0, i as int));
                assert(pre.last() == rows_val@[i as int]);
            }
            match &rows_val[i] {
                ConfValue::Arr(cells) => {
                    if cells.len() > WIDTH {
                        proof {
                            lemma_rows_err(rows_val@, i as int);
                        }
                        return Err(Error::new_field_not_exists(String::from_str("map")));
                    }
                    let m = cells.len();
                    let mut row: Vec<u8> = Vec::new();
                    let mut j: usize = 0;
                    proof {
                        assert(cells@.subrange(0, 0) =~= Seq::<ConfValue>::empty());
                    }
                    while j < m
                        invariant
                            j <= m,
                            m == cells@.len(),
                            m <= WIDTH,
                            row@.len() == j,
                            spec_all_ints(cells@.subrange(0, j as int)),
                            forall|jj: int|
                                0 <= jj < j ==> #[trigger] row@[jj] == spec_int_of(
                                    cells@[jj],
                                ) as u8,
                            rows_val@[i as int] == ConfValue::Arr(*cells),
                            spec_rows(rows_val@.subrange(0, i as int)) == Ok::<
                                Seq<Seq<u8>>,
                                ConfErr,
                            >(pmap@.map_values(|r: Vec<u8>| r@)),
                            i < rows_val@.len(),
                            spec_get(*content, "map"@) matches Some(mv) && mv == ConfValue::Arr(
                                *rows_val,
                            ),
                            spec_get(*content, "name"@) matches Some(nv) && nv is Str,
                            spec_features(*content) is Ok,
                        decreases m - j,
                    {
                        proof {
                            let pre = cells@.subrange(0, j + 1);
                            assert(pre.drop_last() =~= cells@.subrange(0, j as int));
                            assert(pre.last() == cells@[j as int]);
                        }
                        match &cells[j] {
                            ConfValue::Int(x) => {
                                row.push(#[verifier::truncate] (*x as u8));
                            },
                            _ => {
                                proof {
                                    assert(!spec_all_ints(cells@));
                                    lemma_rows_err(rows_val@, i as int);
                                }
                                return Err(Error::new_field_not_exists(String::from_str("map")));
                            },
                        }
                        j = j + 1;
                    }
                    proof {
                        assert(cells@.subrange(0, m as int) =~= cells@);
                    }
                    while row.len() < WIDTH
                        invariant
                            m <= row@.len() <= WIDTH,
                            m == cells@.len(),
                            m <= WIDTH,
                            forall|jj: int|
                                0 <= jj < m ==> #[trigger] row@[jj] == spec_int_of(
                                    cells@[jj],
                                ) as u8,
                            forall|jj: int| m <= jj < row@.len() ==> #[trigger] row@[jj] == 0u8,
                            spec_all_ints(cells@),
                            rows_val@[i as int] == ConfValue::Arr(*cells),
                            spec_rows(rows_val@.subrange(0, i as int)) == Ok::<
                                Seq<Seq<u8>>,
                                ConfErr,
                            >(pmap@.map_values(|r: Vec<u8>| r@)),
                            i < rows_val@.len(),
                        decreases WIDTH - row.len(),
                    {
                        row.push(0u8);
                    }
                    proof {
                        match spec_row(rows_val@[i as int]) {
                            Ok(mr) => {
                                assert(row@ =~= mr);
                            },
                            Err(_) => {
                                assert(false);
                            },
                        }
                    }
                    let ghost pm0 = pmap@;
                    let ghost grow = row@;
                    pmap.push(row);
                    proof {
                        assert(pmap@.map_values(|r: Vec<u8>| r@) =~= pm0.map_values(
                            |r: Vec<u8>| r@,
                        ).push(grow));
                        let pre = rows_val@.subrange(0, i + 1);
                        assert(pre.drop_last() =~= rows_val@.subrange(0, i as int));
                        assert(pre.last() == rows_val@[i as int]);
                        assert(spec_rows(pre) == Ok::<Seq<Seq<u8>>, ConfErr>(
                            pmap@.map_values(|r: Vec<u8>| r@),
                        ));
                    }
                },
                _ => {
                    proof {
                        lemma_rows_err(rows_val@, i as int);
                    }
                    return Err(Error::new_field_not_exists(String::from_str("map")));
                },
            }
            i = i + 1;
        }
        proof {
            assert(rows_val@.subrange(0, n as int) =~= rows_val@);
            let models = pmap@.map_values(|r: Vec<u8>| r@);
            assert forall|ii: int|
                0 <= ii < models.len() implies #[trigger] models[ii].len() == WIDTH as int by {
                assert(models[ii] == pmap@[ii]@);
            }
        }
        Ok(GameMap { p_name: nm, p_features: features, p_map: pmap })
    }
}

/// The maps list the configuration's `Maps` table declares.
pub open spec fn spec_maps_list(v: ConfValue) -> Result<Seq<ConfValue>, ConfErr> {
    match spec_get(v, "Maps"@) {
        Option::Some(mt) => match spec_get(mt, "maps"@) {
            Option::Some(ConfValue::Arr(ns)) => Ok(ns@),
            _ => Err(ConfErr::FieldNotExists("Maps.maps"@)),
        },
        _ => Err(ConfErr::FieldNotExists("Maps.maps"@)),
    }
}

/// What one entry of the maps list contributes: the named map's record,
/// when the entry is a name, the configuration has a table for it, and
/// that table reads cleanly; nothing otherwise — a bad entry is skipped,
/// never fatal.
pub open spec fn spec_entry_of(nv: ConfValue, root: ConfValue, verbose: bool) -> Option<
    (Seq<char>, MapInfoModel),
> {
    match nv {
        ConfValue::Str(m) => match spec_get(root, m@) {
            Option::Some(mv) => match spec_from_conf_one(mv, m@, verbose) {
                Ok(model) => Some((m@, model)),
                Err(_) => None,
            },
            Option::None => None,
        },
        _ => None,
    }
}

/// The record the finished table holds under a name: the last clean
/// declaration of that name wins.
pub open spec fn spec_collected(
    ns: Seq<ConfValue>,
    root: ConfValue,
    verbose: bool,
    name: Seq<char>,
) -> Option<MapInfoModel>
    decreases ns.len(),
{
    if ns.len() == 0 {
        None
    } else {
        match spec_entry_of(ns.last(), root, verbose) {
            Option::Some(p) => if p.0 == name {
                Some(p.1)
            } else {
                spec_collected(ns.drop_last(), root, verbose, name)
            },
            Option::None => spec_collected(ns.drop_last(), root, verbose, name),
        }
    }
}

/// The record a map table holds under a name, as its mathematical content.
pub open spec fn spec_table_lookup(t: Seq<(String, MapInfo)>, name: Seq<char>) -> Option<
    MapInfoModel,
> {
    match spec_alist_get(t, name) {
        Option::Some(info) => Some(info.spec_model()),
        Option::None => None,
    }
}

impl MapInfo {
    /// Reads every declared map's configuration table into a table of
    /// records, keyed by map name. A declaration that cannot be read is
    /// skipped; a duplicate name is overwritten, last writer wins.
    pub fn from_conf(v: &ConfValue, verbose: bool) -> (r: Result<Vec<(String, MapInfo)>, Error>)
        ensures
            match spec_maps_list(*v) {
                Ok(ns) => r matches Ok(t) && spec_keys_distinct(t@) && (forall|name: Seq<char>|
                    #[trigger] spec_table_lookup(t@, name) == spec_collected(
                        ns,
                        *v,
                        verbose,
                        name,
                    )),
                Err(em) => r matches Err(e) && spec_err_matches(e, em),
            },
    {
        let maps_tbl = match conf_get(v, "Maps") {
            Option::Some(mt) => mt,
            Option::None => {
                return Err(Error::new_field_not_exists(String::from_str("Maps.maps")));
            },
        };
        let ns = match conf_get(maps_tbl, "maps") {
            Option::Some(ConfValue::Arr(ns)) => ns,
            _ => {
                return Err(Error::new_field_not_exists(String::from_str("Maps.maps")));
            },
        };
        let n = ns.len();
        let mut maps: Vec<(String, MapInfo)> = Vec::new();
        let mut i: usize = 0;
        proof {
            assert(ns@.subrange(0, 0) =~= Seq::<ConfValue>::empty());
        }
        while i < n
            invariant
                i <= n,
                n == ns@.len(),
                spec_maps_list(*v) == Ok::<Seq<ConfValue>, ConfErr>(ns@),
                spec_keys_distinct(maps@),
                forall|name: Seq<char>|
                    #[trigger] spec_table_lookup(maps@, name) == spec_collected(
                        ns@.subrange(0, i as int),
                        *v,
                        verbose,
                        name,
                    ),
            decreases n - i,
        {
            proof {
                let pre = ns@.subrange(0, i + 1);
                assert(pre.drop_last() =~= ns@.subrange(0, i as int));
                assert(pre.last() == ns@[i as int]);
            }
            match &ns[i] {
                ConfValue::Str(m) => {
                    match conf_get(v, m.as_str()) {
                        Option::Some(mv) => {
                            match MapInfo::from_conf_one(mv, m.clone(), verbose) {
                                Ok(info) => {
                                    let ghost gmodel = info.spec_model();
                                    let ghost pre_maps = maps@;
                                    match crate::alist::alist_find(&maps, m.as_str()) {
                                        Option::Some(ix) => {
                                            proof {
                                                lemma_alist_get_remove(maps@, ix as int);
                                            }
                                            let _ = maps.remove(ix);
                                        },
                                        Option::None => {
                                        },
                                    }
                                    let key = m.clone();
                                    proof {
                                        lemma_alist_get_index(maps@, m@);
                                        lemma_alist_get_push(maps@, (key, info));
                                    }
                                    maps.push((key, info));
                                    proof {
                                        assert forall|name: Seq<char>|
                                            #[trigger] spec_table_lookup(maps@, name)
                                                == spec_collected(
                                                ns@.subrange(0, i + 1),
                                                *v,
                                                verbose,
                                                name,
                                            ) by {
                                            let pre = ns@.subrange(0, i + 1);
                                            assert(spec_entry_of(pre.last(), *v, verbose)
                                                == Some((m@, gmodel)));
                                            if name == m@ {
                                                assert(spec_table_lookup(maps@, m@) == Some(
                                                    gmodel,
                                                ));
                                            } else {
                                                assert(spec_alist_get(maps@, name)
                                                    == spec_alist_get(pre_maps, name));
                                                assert(spec_table_lookup(maps@, name)
                                                    == spec_table_lookup(pre_maps, name));
                                            }
                                        }
                                    }
                                },
                                Err(_) => {
                                },
                            }
                        },
                        Option::None => {
                        },
                    }
                },
                _ => {
                },
            }
            i = i + 1;
        }
        proof {
            assert(ns@.subrange(0, n as int) =~= ns@);
        }
        Ok(maps)
    }
}

/// The version the configuration's `Maps` table declares.
pub open spec fn spec_places_version(content: ConfValue) -> Result<SemVer, ConfErr> {
    match spec_get(content, "Maps"@) {
        Option::None => Err(ConfErr::FieldNotExists("Maps"@)),
        Option::Some(mt) => match spec_get(mt, "version"@) {
            Option::Some(ConfValue::Str(vs)) => match version::spec_parse_version(vs@) {
                Option::Some(t) => Ok(version::spec_semver_of(t)),
                Option::None => Err(ConfErr::VersionNotParsable(vs@)),
            },
            _ => Err(ConfErr::FieldNotExists("Maps.version"@)),
        },
    }
}

/// Struct holding all the information of the map configuration: the
/// declared loader version and the table of declared maps.
#[derive(Debug)]
pub struct MapPlaces {
    p_version: SemVer,
    p_maps: Vec<(String, MapInfo)>,
}

impl MapPlaces {
    /// The declared loader version.
    pub closed spec fn spec_version(&self) -> SemVer {
        self.p_version
    }

    /// The record held under a map name.
    pub closed spec fn spec_lookup(&self, name: Seq<char>) -> Option<MapInfoModel> {
        spec_table_lookup(self.p_maps@, name)
    }

    /// The declared map names, in table order.
    pub closed spec fn spec_names(&self) -> Seq<Seq<char>> {
        self.p_maps@.map_values(|p: (String, MapInfo)| p.0@)
    }

    /// Each map name is held once.
    pub closed spec fn wf(&self) -> bool {
        spec_keys_distinct(self.p_maps@)
    }

    /// Reads the whole map configuration, handed in as plain data.
    ///
    /// The `Maps` table and a parsable `Maps.version` are required; the
    /// declared maps are read when the version is below the last one this
    /// loader answers for, and an empty table stands otherwise.
    pub fn from_value(content: &ConfValue, verbose: bool) -> (r: Result<MapPlaces, Error>)
        ensures
            match spec_places_version(*content) {
                Err(em) => r matches Err(e) && spec_err_matches(e, em),
                Ok(ver) => if ver.spec_precedes(
                    SemVer { major: 99, minor: 99, patch: 99, pre: false },
                ) {
                    match spec_maps_list(*content) {
                        Ok(ns) => r matches Ok(mp) && mp.wf() && mp.spec_version() == ver && (
                        forall|name: Seq<char>|
                            #[trigger] mp.spec_lookup(name) == spec_collected(
                                ns,
                                *content,
                                verbose,
                                name,
                            )),
                        Err(em) => r matches Err(e) && spec_err_matches(e, em),
                    }
                } else {
                    r matches Ok(mp) && mp.wf() && mp.spec_version() == ver && (forall|
                        name: Seq<char>,
                    | #[trigger] mp.spec_lookup(name) is None)
                },
            },
    {
        let maps_tbl = match conf_get(content, "Maps") {
            Option::Some(mt) => mt,
            Option::None => {
                return Err(Error::new_field_not_exists(String::from_str("Maps")));
            },
        };
        let vtext = match conf_get(maps_tbl, "version") {
            Option::Some(ConfValue::Str(s)) => s,
            _ => {
                return Err(Error::new_field_not_exists(String::from_str("Maps.version")));
            },
        };
        let ver = match version::parse_version(vtext.as_str()) {
            Option::Some(sv) => sv,
            Option::None => {
                return Err(Error::new(ErrorKind::VersionNotParsable(vtext.clone())));
            },
        };
        let maps: Vec<(String, MapInfo)> = if ver.precedes(&SemVer::new(99, 99, 99)) {
            match MapInfo::from_conf(content, verbose) {
                Ok(t) => t,
                Err(e) => {
                    return Err(e);
                },
            }
        } else {
            Vec::new()
        };
        Ok(MapPlaces { p_version: ver, p_maps: maps })
    }

    /// Returns the names of the declared maps.
    pub fn available_maps(&self) -> (r: Vec<String>)
        ensures
            r@.len() == self.spec_names().len(),
            forall|i: int| 0 <= i < r@.len() ==> #[trigger] r@[i]@ == self.spec_names()[i],
    {
        let n = self.p_maps.len();
        let mut vec: Vec<String> = Vec::new();
        let mut i: usize = 0;
        while i < n
            invariant
                i <= n,
                n == self.p_maps@.len(),
                vec@.len() == i,
                forall|j: int| 0 <= j < i ==> #[trigger] vec@[j]@ == self.p_maps@[j].0@,
            decreases n - i,
        {
            vec.push(self.p_maps[i].0.clone());
            i = i + 1;
        }
        proof {
            assert forall|j: int| 0 <= j < vec@.len() implies #[trigger] vec@[j]@
                == self.spec_names()[j] by {
                assert(self.spec_names()[j] == self.p_maps@[j].0@);
            }
        }
        vec
    }

    /// Loads and returns the named map from its file's content.
    pub fn get(&self, name: &str, content: &ConfValue) -> (r: Result<GameMap, Error>)
        ensures
            self.spec_lookup(name@) is None ==> (r matches Err(e) && (e.spec_kind()
                matches ErrorKind::FieldNotExists(d) && d@ == name@)),
            self.spec_lookup(name@) is Some ==> (match spec_load_map(*content) {
                Ok(mm) => r matches Ok(m) && m.spec_model() == mm && m.wf(),
                Err(em) => r matches Err(e) && spec_err_matches(e, em),
            }),
    {
        match crate::alist::alist_find(&self.p_maps, name) {
            Option::Some(i) => self.p_maps[i].1.load_map(content),
            Option::None => Err(Error::new_field_not_exists(String::from_str(name))),
        }
    }

    /// Returns the authors of the named map, run together as one string.
    pub fn get_author(&self, name: &str) -> (r: Option<String>)
        ensures
            self.spec_lookup(name@) is None ==> r is None,
            self.spec_lookup(name@) matches Some(m) ==> (match m.author {
                Option::None => r is None,
                Option::Some(fs) => r matches Some(s) && s@ == spec_concat_views(fs),
            }),
    {
        match crate::alist::alist_find(&self.p_maps, name) {
            Option::Some(i) => self.p_maps[i].1.author(),
            Option::None => None,
        }
    }

    /// Returns the file the named map is declared to live in.
    pub fn map_file(&self, name: &str) -> (r: Option<String>)
        ensures
            self.spec_lookup(name@) is None ==> r is None,
            self.spec_lookup(name@) matches Some(m) ==> r matches Some(f) && f@ == m.file,
    {
        match crate::alist::alist_find(&self.p_maps, name) {
            Option::Some(i) => Some(self.p_maps[i].1.file().clone()),
            Option::None => None,
        }
    }

    /// Returns the declared loader version.
    pub fn version(&self) -> (r: &SemVer)
        ensures
            *r == self.spec_version(),
    {
        &self.p_version
    }
}

} // verus!
