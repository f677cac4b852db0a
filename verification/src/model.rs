use vstd::prelude::*;
use crate::json::{
    deep_members_of, deep_seq_of, lemma_deep_members_of, lemma_deep_seq_of, Json, SpecJson,
};
use crate::text::{bytes_eq, copy_bytes, text, text_bytes};

verus! {

broadcast use {
    vstd::seq::axiom_seq_index_decreases,
    vstd::std_specs::vec::axiom_vec_decreases_to_view,
    vstd::std_specs::vec::axiom_vec_index_decreases,
};

/// A file or directory reported by the remote service. Sizes are byte
/// counts; the service serializes them as JSON numbers whose integer part
/// this model keeps (saturated at `u64::MAX`, clamped at zero). `items`
/// is present only for directory listings. Text fields hold UTF-8 bytes.
pub struct Resource {
    /// File or directory name, without its path.
    pub name: Vec<u8>,
    /// Size in bytes.
    pub size: u64,
    /// File extension; empty for directories.
    pub extension: Vec<u8>,
    /// Whether the resource is a directory.
    pub is_dir: bool,
    /// Full path on the server.
    pub path: Vec<u8>,
    /// Last-modification timestamp, as the service reports it.
    pub modified: Vec<u8>,
    /// Children, present only when a directory's contents were listed.
    pub items: Option<Vec<Resource>>,
    /// Number of subdirectories (0 for files).
    pub num_dirs: i32,
    /// Number of files (0 for files).
    pub num_files: i32,
}

/// The mathematical value of a `Resource`.
pub struct SpecResource {
    pub name: Seq<u8>,
    pub size: u64,
    pub extension: Seq<u8>,
    pub is_dir: bool,
    pub path: Seq<u8>,
    pub modified: Seq<u8>,
    pub items: Option<Seq<SpecResource>>,
    pub num_dirs: i32,
    pub num_files: i32,
}

impl Resource {
    /// The mathematical value of this resource.
    pub open spec fn deep(&self) -> SpecResource
        decreases self,
        via Resource::deep_dec
    {
        SpecResource {
            name: self.name@,
            size: self.size,
            extension: self.extension@,
            is_dir: self.is_dir,
            path: self.path@,
            modified: self.modified@,
            items: match self.items {
                Option::None => None,
                Option::Some(v) => Some(deep_resources(v@)),
            },
            num_dirs: self.num_dirs,
            num_files: self.num_files,
        }
    }

    #[via_fn]
    proof fn deep_dec(&self) {
        match self.items {
            Option::Some(v) => {
                assert(decreases_to!(self => v));
                assert(decreases_to!(v => v@));
            },
            Option::None => {},
        }
    }
}

/// The mathematical values of a sequence of resources.
pub open spec fn deep_resources(s: Seq<Resource>) -> Seq<SpecResource>
    decreases s,
{
    if s.len() == 0 {
        Seq::empty()
    } else {
        deep_resources(s.drop_last()).push(s.last().deep())
    }
}

/// `deep_resources`, element by element.
pub proof fn lemma_deep_resources(s: Seq<Resource>)
    ensures
        deep_resources(s).len() == s.len(),
        forall|k: int| 0 <= k < s.len() ==> deep_resources(s)[k] == s[k].deep(),
    decreases s.len(),
{
    if s.len() > 0 {
        lemma_deep_resources(s.drop_last());
    }
}

/// Pushing a resource extends the mathematical values by its value.
proof fn lemma_deep_resources_push(s: Seq<Resource>, x: Resource)
    ensures
        deep_resources(s.push(x)) == deep_resources(s).push(x.deep()),
{
    assert(s.push(x).drop_last() =~= s);
    assert(s.push(x).last() == x);
}

/// One result of the search operation: a path and whether it is a
/// directory.
pub struct SearchResult {
    /// Full path of the match.
    pub path: Vec<u8>,
    /// Whether the match is a directory.
    pub dir: bool,
}

/// The mathematical value of a `SearchResult`.
pub struct SpecSearchResult {
    pub path: Seq<u8>,
    pub dir: bool,
}

impl SearchResult {
    /// The mathematical value of this result.
    pub open spec fn deep(&self) -> SpecSearchResult {
        SpecSearchResult { path: self.path@, dir: self.dir }
    }
}

/// The mathematical values of a sequence of search results.
pub open spec fn deep_searches(s: Seq<SearchResult>) -> Seq<SpecSearchResult> {
    Seq::new(s.len(), |k: int| s[k].deep())
}

// ---------------------------------------------------------------------
// Field lookup
// ---------------------------------------------------------------------

/// Index of the first member with the given key, or -1.
pub open spec fn spec_lookup_idx(m: Seq<(Seq<u8>, SpecJson)>, key: Seq<u8>) -> int
    decreases m.len(),
{
    if m.len() == 0 {
        -1
    } else if m[0].0 == key {
        0
    } else {
        let r = spec_lookup_idx(m.drop_first(), key);
        if r < 0 {
            -1
        } else {
            r + 1
        }
    }
}

/// `spec_lookup_idx` finds exactly the first member with the key.
pub proof fn lemma_lookup_idx(m: Seq<(Seq<u8>, SpecJson)>, key: Seq<u8>)
    ensures
        -1 <= spec_lookup_idx(m, key) < m.len(),
        spec_lookup_idx(m, key) >= 0 ==> m[spec_lookup_idx(m, key)].0 == key,
        forall|t: int| 0 <= t < spec_lookup_idx(m, key) ==> m[t].0 != key,
        spec_lookup_idx(m, key) == -1 ==> forall|t: int| 0 <= t < m.len() ==> m[t].0 != key,
    decreases m.len(),
{
    if m.len() > 0 && m[0].0 != key {
        let mdf = m.drop_first();
        lemma_lookup_idx(mdf, key);
        let idx = spec_lookup_idx(m, key);
        assert forall|t: int| 0 <= t < idx implies m[t].0 != key by {
            if t >= 1 {
                assert(mdf[t - 1] == m[t]);
                assert(mdf[t - 1].0 != key);
            }
        }
        if idx == -1 {
            assert forall|t: int| 0 <= t < m.len() implies m[t].0 != key by {
                if t >= 1 {
                    assert(mdf[t - 1] == m[t]);
                    assert(mdf[t - 1].0 != key);
                }
            }
        }
    }
}

/// The value of the first member with the given key, if any.
pub open spec fn spec_field(m: Seq<(Seq<u8>, SpecJson)>, key: Seq<u8>) -> Option<SpecJson> {
    let idx = spec_lookup_idx(m, key);
    if idx < 0 {
        None
    } else {
        Some(m[idx].1)
    }
}

/// A required string field: its bytes, or nothing if it is absent or not
/// a string.
pub open spec fn spec_str_field(m: Seq<(Seq<u8>, SpecJson)>, key: Seq<u8>) -> Option<Seq<u8>> {
    match spec_field(m, key) {
        Some(SpecJson::Str { bytes }) => Some(bytes),
        _ => None,
    }
}

/// A required size field: the magnitude of a number, negative values
/// clamped to zero; nothing if it is absent or not a number.
pub open spec fn spec_size_field(m: Seq<(Seq<u8>, SpecJson)>, key: Seq<u8>) -> Option<u64> {
    match spec_field(m, key) {
        Some(SpecJson::Num { neg, mag }) => Some(
            if neg {
                0
            } else {
                mag
            },
        ),
        _ => None,
    }
}

/// An optional boolean field, absent meaning false; nothing if a present
/// value is not a boolean.
pub open spec fn spec_flag_field(m: Seq<(Seq<u8>, SpecJson)>, key: Seq<u8>) -> Option<bool> {
    match spec_field(m, key) {
        None => Some(false),
        Some(SpecJson::Bool { value }) => Some(value),
        _ => None,
    }
}

/// An optional count field, absent meaning zero; nothing if a present
/// value is not a number or does not fit an `i32`.
pub open spec fn spec_count_field(m: Seq<(Seq<u8>, SpecJson)>, key: Seq<u8>) -> Option<i32> {
    match spec_field(m, key) {
        None => Some(0),
        Some(SpecJson::Num { neg, mag }) => if neg {
            if mag <= 0x8000_0000 {
                Some((-(mag as int)) as i32)
            } else {
                None
            }
        } else {
            if mag <= 0x7FFF_FFFF {
                Some(mag as i32)
            } else {
                None
            }
        },
        _ => None,
    }
}

fn find_field(members: &Vec<(Vec<u8>, Json)>, key: &Vec<u8>) -> (r: Option<usize>)
    ensures
        ({
            let idx = spec_lookup_idx(deep_members_of(members@), key@);
            match r {
                Some(i) => idx == i as int && i < members@.len(),
                None => idx == -1,
            }
        }),
{
    proof {
        lemma_deep_members_of(members@);
        lemma_lookup_idx(deep_members_of(members@), key@);
    }
    let mut k: usize = 0;
    while k < members.len()
        invariant
            k <= members@.len(),
            deep_members_of(members@).len() == members@.len(),
            forall|t: int|
                0 <= t < members@.len() ==> #[trigger] deep_members_of(members@)[t] == (
                members@[t].0@,
                members@[t].1.deep(),
            ),
            forall|t: int| 0 <= t < k ==> deep_members_of(members@)[t].0 != key@,
        decreases members@.len() - k,
    {
        let pair = &members[k];
        if bytes_eq(&pair.0, key) {
            proof {
                let m = deep_members_of(members@);
                lemma_lookup_idx(m, key@);
                let idx = spec_lookup_idx(m, key@);
                assert(m[k as int].0 == key@);
                assert(idx >= 0) by {
                    if idx == -1 {
                        assert(m[k as int].0 != key@);
                    }
                }
                assert(!(idx < k as int)) by {
                    if 0 <= idx < k as int {
                        assert(m[idx].0 != key@);
                        assert(m[idx].0 == key@);
                    }
                }
                assert(!(idx > k as int)) by {
                    if idx > k as int {
                        assert(m[k as int].0 != key@);
                    }
                }
            }
            return Some(k);
        }
        k = k + 1;
    }
    proof {
        let m = deep_members_of(members@);
        lemma_lookup_idx(m, key@);
        let idx = spec_lookup_idx(m, key@);
        assert(idx == -1) by {
            if idx >= 0 {
                assert(m[idx].0 == key@);
                assert(m[idx].0 != key@);
            }
        }
    }
    None
}

fn get_str_field(members: &Vec<(Vec<u8>, Json)>, key: &Vec<u8>) -> (r: Option<Vec<u8>>)
    ensures
        match (r, spec_str_field(deep_members_of(members@), key@)) {
            (Option::Some(v), Option::Some(sv)) => v@ == sv,
            (Option::None, Option::None) => true,
            _ => false,
        },
{
    proof {
        lemma_deep_members_of(members@);
    }
    match find_field(members, key) {
        None => None,
        Some(i) => {
            let pair = &members[i];
            match &pair.1 {
                Json::Str { bytes } => Some(copy_bytes(bytes)),
                _ => None,
            }
        },
    }
}

fn get_size_field(members: &Vec<(Vec<u8>, Json)>, key: &Vec<u8>) -> (r: Option<u64>)
    ensures
        r == spec_size_field(deep_members_of(members@), key@),
{
    proof {
        lemma_deep_members_of(members@);
    }
    match find_field(members, key) {
        None => None,
        Some(i) => {
            let pair = &members[i];
            match &pair.1 {
                Json::Num { neg, mag } => Some(
                    if *neg {
                        0
                    } else {
                        *mag
                    },
                ),
                _ => None,
            }
        },
    }
}

fn get_flag_field(members: &Vec<(Vec<u8>, Json)>, key: &Vec<u8>) -> (r: Option<bool>)
    ensures
        r == spec_flag_field(deep_members_of(members@), key@),
{
    proof {
        lemma_deep_members_of(members@);
    }
    match find_field(members, key) {
        None => Some(false),
        Some(i) => {
            let pair = &members[i];
            match &pair.1 {
                Json::Bool { value } => Some(*value),
                _ => None,
            }
        },
    }
}

fn get_count_field(members: &Vec<(Vec<u8>, Json)>, key: &Vec<u8>) -> (r: Option<i32>)
    ensures
        r == spec_count_field(deep_members_of(members@), key@),
{
    proof {
        lemma_deep_members_of(members@);
    }
    match find_field(members, key) {
        None => Some(0),
        Some(i) => {
            let pair = &members[i];
            match &pair.1 {
                Json::Num { neg, mag } => {
                    if *neg {
                        if *mag <= 0x8000_0000 {
                            Some((0i64 - *mag as i64) as i32)
                        } else {
                            None
                        }
                    } else {
                        if *mag <= 0x7FFF_FFFF {
                            Some(*mag as i32)
                        } else {
                            None
                        }
                    }
                },
                _ => None,
            }
        },
    }
}

// ---------------------------------------------------------------------
// Decoding resources
// ---------------------------------------------------------------------

/// Decode an object into a resource. The five text and size fields are
/// required; `isDir`, `items`, `numDirs` and `numFiles` default to false,
/// none, zero and zero when absent. Unknown members are ignored; a present
/// member of the wrong kind is a failure.
pub open spec fn spec_decode_resource(sj: SpecJson) -> Option<SpecResource>
    decreases sj, 0int, 0int,
    via spec_decode_resource_dec
{
    match sj {
        SpecJson::Obj { members } => {
            match (
                spec_str_field(members, text_bytes("name"@)),
                spec_size_field(members, text_bytes("size"@)),
                spec_str_field(members, text_bytes("extension"@)),
                spec_flag_field(members, text_bytes("isDir"@)),
                spec_str_field(members, text_bytes("path"@)),
                spec_str_field(members, text_bytes("modified"@)),
                spec_count_field(members, text_bytes("numDirs"@)),
                spec_count_field(members, text_bytes("numFiles"@)),
            ) {
                (
                    Option::Some(name),
                    Option::Some(size),
                    Option::Some(extension),
                    Option::Some(is_dir),
                    Option::Some(path),
                    Option::Some(modified),
                    Option::Some(num_dirs),
                    Option::Some(num_files),
                ) => {
                    let idx = spec_lookup_idx(members, text_bytes("items"@));
                    if idx < 0 {
                        Some(
                            SpecResource {
                                name,
                                size,
                                extension,
                                is_dir,
                                path,
                                modified,
                                items: None,
                                num_dirs,
                                num_files,
                            },
                        )
                    } else {
                        match members[idx].1 {
                            SpecJson::Null => Some(
                                SpecResource {
                                    name,
                                    size,
                                    extension,
                                    is_dir,
                                    path,
                                    modified,
                                    items: None,
                                    num_dirs,
                                    num_files,
                                },
                            ),
                            SpecJson::Arr { items } => match spec_decode_resources(
                                items,
                                0,
                                Seq::empty(),
                            ) {
                                Option::None => None,
                                Option::Some(rs) => Some(
                                    SpecResource {
                                        name,
                                        size,
                                        extension,
                                        is_dir,
                                        path,
                                        modified,
                                        items: Some(rs),
                                        num_dirs,
                                        num_files,
                                    },
                                ),
                            },
                            _ => None,
                        }
                    }
                },
                _ => None,
            }
        },
        _ => None,
    }
}

#[via_fn]
proof fn spec_decode_resource_dec(sj: SpecJson) {
    match sj {
        SpecJson::Obj { members } => {
            lemma_lookup_idx(members, text_bytes("items"@));
            let idx = spec_lookup_idx(members, text_bytes("items"@));
            if 0 <= idx < members.len() {
                assert(decreases_to!(members => members[idx]));
                assert(decreases_to!(members[idx] => members[idx].1));
                match members[idx].1 {
                    SpecJson::Arr { items } => {
                        assert(decreases_to!(sj => items));
                    },
                    _ => {},
                }
            }
        },
        _ => {},
    }
}

/// Lenient defaulting: whenever an object that carries none of the
/// optional members decodes, the resource it yields has `is_dir` false,
/// no items, and zero counts, whatever its required fields hold.
pub proof fn lemma_decode_defaults(members: Seq<(Seq<u8>, SpecJson)>)
    requires
        forall|t: int|
            0 <= t < members.len() ==> (#[trigger] members[t].0) != text_bytes("isDir"@),
        forall|t: int|
            0 <= t < members.len() ==> (#[trigger] members[t].0) != text_bytes("items"@),
        forall|t: int|
            0 <= t < members.len() ==> (#[trigger] members[t].0) != text_bytes("numDirs"@),
        forall|t: int|
            0 <= t < members.len() ==> (#[trigger] members[t].0) != text_bytes("numFiles"@),
    ensures
        spec_decode_resource(SpecJson::Obj { members }) matches Some(r) ==> r.is_dir == false
            && r.items is None && r.num_dirs == 0 && r.num_files == 0,
{
    lemma_lookup_idx(members, text_bytes("isDir"@));
    lemma_lookup_idx(members, text_bytes("items"@));
    lemma_lookup_idx(members, text_bytes("numDirs"@));
    lemma_lookup_idx(members, text_bytes("numFiles"@));
}

/// Decode the elements `k` on of an array of resources, already-decoded
/// ones in `acc`; any failing element fails the whole array.
pub open spec fn spec_decode_resources(
    sitems: Seq<SpecJson>,
    k: int,
    acc: Seq<SpecResource>,
) -> Option<Seq<SpecResource>>
    decreases sitems, sitems.len() - k, 1int,
{
    if k < 0 || k >= sitems.len() {
        Some(acc)
    } else {
        match spec_decode_resource(sitems[k]) {
            Option::None => None,
            Option::Some(r) => spec_decode_resources(sitems, k + 1, acc.push(r)),
        }
    }
}

/// Decode a parsed JSON value into a resource. Returns the decoded record
/// exactly when the value is an object of the schema above, and nothing
/// otherwise.
pub fn decode_resource(j: &Json) -> (r: Option<Resource>)
    ensures
        match (r, spec_decode_resource(j.deep())) {
            (Option::Some(res), Option::Some(sr)) => res.deep() == sr,
            (Option::None, Option::None) => true,
            _ => false,
        },
    decreases j.deep(), 0int, 0int,
{
    match j {
        Json::Obj { members } => {
            proof {
                lemma_deep_members_of(members@);
            }
            let name = match get_str_field(members, &text("name")) {
                Some(v) => v,
                None => {
                    return None;
                },
            };
            let size = match get_size_field(members, &text("size")) {
                Some(v) => v,
                None => {
                    return None;
                },
            };
            let extension = match get_str_field(members, &text("extension")) {
                Some(v) => v,
                None => {
                    return None;
                },
            };
            let is_dir = match get_flag_field(members, &text("isDir")) {
                Some(v) => v,
                None => {
                    return None;
                },
            };
            let path = match get_str_field(members, &text("path")) {
                Some(v) => v,
                None => {
                    return None;
                },
            };
            let modified = match get_str_field(members, &text("modified")) {
                Some(v) => v,
                None => {
                    return None;
                },
            };
            let num_dirs = match get_count_field(members, &text("numDirs")) {
                Some(v) => v,
                None => {
                    return None;
                },
            };
            let num_files = match get_count_field(members, &text("numFiles")) {
                Some(v) => v,
                None => {
                    return None;
                },
            };
            match find_field(members, &text("items")) {
                None => Some(
                    Resource {
                        name,
                        size,
                        extension,
                        is_dir,
                        path,
                        modified,
                        items: None,
                        num_dirs,
                        num_files,
                    },
                ),
                Some(i) => {
                    let pair = &members[i];
                    match &pair.1 {
                        Json::Null => Some(
                            Resource {
                                name,
                                size,
                                extension,
                                is_dir,
                                path,
                                modified,
                                items: None,
                                num_dirs,
                                num_files,
                            },
                        ),
                        Json::Arr { items } => {
                            proof {
                                let m = deep_members_of(members@);
                                assert(decreases_to!(m => m[i as int]));
                                assert(decreases_to!(m[i as int] => m[i as int].1));
                                assert(decreases_to!(j.deep() => deep_seq_of(items@)));
                            }
                            match decode_resources(items, 0, Vec::new()) {
                                None => None,
                                Some(rs) => Some(
                                    Resource {
                                        name,
                                        size,
                                        extension,
                                        is_dir,
                                        path,
                                        modified,
                                        items: Some(rs),
                                        num_dirs,
                                        num_files,
                                    },
                                ),
                            }
                        },
                        _ => None,
                    }
                },
            }
        },
        _ => {
            None
        },
    }
}

fn decode_resources(items: &Vec<Json>, k: usize, acc: Vec<Resource>) -> (r: Option<Vec<Resource>>)
    requires
        k <= items@.len(),
    ensures
        match (
            r,
            spec_decode_resources(deep_seq_of(items@), k as int, deep_resources(acc@)),
        ) {
            (Option::Some(v), Option::Some(sv)) => deep_resources(v@) == sv,
            (Option::None, Option::None) => true,
            _ => false,
        },
    decreases deep_seq_of(items@), items@.len() - k, 1int,
{
    proof {
        lemma_deep_seq_of(items@);
    }
    if k == items.len() {
        Some(acc)
    } else {
        let elem = &items[k];
        proof {
            let si = deep_seq_of(items@);
            assert(decreases_to!(si => si[k as int]));
        }
        match decode_resource(elem) {
            None => None,
            Some(res) => {
                let ghost oacc = acc@;
                let mut acc2 = acc;
                acc2.push(res);
                proof {
                    lemma_deep_resources_push(oacc, res);
                }
                decode_resources(items, k + 1, acc2)
            },
        }
    }
}

// ---------------------------------------------------------------------
// Decoding search results
// ---------------------------------------------------------------------

/// Decode an object into a search result: a required `path` string and an
/// optional `dir` flag, absent meaning false.
pub open spec fn spec_decode_search(sj: SpecJson) -> Option<SpecSearchResult> {
    match sj {
        SpecJson::Obj { members } => {
            match (
                spec_str_field(members, text_bytes("path"@)),
                spec_flag_field(members, text_bytes("dir"@)),
            ) {
                (Option::Some(path), Option::Some(dir)) => Some(SpecSearchResult { path, dir }),
                _ => None,
            }
        },
        _ => None,
    }
}

/// Decode the elements `k` on of an array of search results.
pub open spec fn spec_decode_searches(
    sitems: Seq<SpecJson>,
    k: int,
    acc: Seq<SpecSearchResult>,
) -> Option<Seq<SpecSearchResult>>
    decreases sitems.len() - k,
{
    if k < 0 || k >= sitems.len() {
        Some(acc)
    } else {
        match spec_decode_search(sitems[k]) {
            Option::None => None,
            Option::Some(r) => spec_decode_searches(sitems, k + 1, acc.push(r)),
        }
    }
}

/// Decode a parsed JSON value into a list of search results. Returns the
/// decoded list exactly when the value is an array of objects of the
/// schema above, and nothing otherwise.
pub open spec fn spec_decode_search_list(sj: SpecJson) -> Option<Seq<SpecSearchResult>> {
    match sj {
        SpecJson::Arr { items } => spec_decode_searches(items, 0, Seq::empty()),
        _ => None,
    }
}

fn decode_search(j: &Json) -> (r: Option<SearchResult>)
    ensures
        match (r, spec_decode_search(j.deep())) {
            (Option::Some(res), Option::Some(sr)) => res.deep() == sr,
            (Option::None, Option::None) => true,
            _ => false,
        },
{
    match j {
        Json::Obj { members } => {
            proof {
                lemma_deep_members_of(members@);
            }
            let path = match get_str_field(members, &text("path")) {
                Some(v) => v,
                None => {
                    return None;
                },
            };
            let dir = match get_flag_field(members, &text("dir")) {
                Some(v) => v,
                None => {
                    return None;
                },
            };
            Some(SearchResult { path, dir })
        },
        _ => None,
    }
}

fn decode_searches(items: &Vec<Json>, k: usize, acc: Vec<SearchResult>) -> (r: Option<
    Vec<SearchResult>,
>)
    requires
        k <= items@.len(),
    ensures
        match (
            r,
            spec_decode_searches(deep_seq_of(items@), k as int, deep_searches(acc@)),
        ) {
            (Option::Some(v), Option::Some(sv)) => deep_searches(v@) == sv,
            (Option::None, Option::None) => true,
            _ => false,
        },
    decreases items@.len() - k,
{
    proof {
        lemma_deep_seq_of(items@);
    }
    if k == items.len() {
        Some(acc)
    } else {
        let elem = &items[k];
        match decode_search(elem) {
            None => None,
            Some(res) => {
                let ghost oacc = acc@;
                let mut acc2 = acc;
                acc2.push(res);
                proof {
                    assert(deep_searches(oacc.push(res)) =~= deep_searches(oacc).push(
                        res.deep(),
                    ));
                }
                decode_searches(items, k + 1, acc2)
            },
        }
    }
}

/// Decode a parsed JSON value into the list of search results it holds.
pub fn decode_search_list(j: &Json) -> (r: Option<Vec<SearchResult>>)
    ensures
        match (r, spec_decode_search_list(j.deep())) {
            (Option::Some(v), Option::Some(sv)) => deep_searches(v@) == sv,
            (Option::None, Option::None) => true,
            _ => false,
        },
{
    match j {
        Json::Arr { items } => {
            let acc: Vec<SearchResult> = Vec::new();
            proof {
                assert(deep_searches(acc@) =~= Seq::<SpecSearchResult>::empty());
            }
            decode_searches(items, 0, acc)
        },
        _ => None,
    }
}

} // verus!
