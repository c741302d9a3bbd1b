//! sysfs and procfs as the library sees them: directories whose files were
//! read at one instant. A file that is absent or unreadable means "this
//! hardware does not exist on this machine", never an error: everything
//! here answers with an `Option` or an empty list.
use vstd::prelude::*;

use crate::text::{
    append_chars, chars_eq, chars_of, eq_ignore_ascii_case, eq_ignore_ascii_case_chars, ends_with, ends_with_chars, parse_i64, parse_i64_chars, parse_u64,
    parse_u64_chars, slice_chars, starts_with, starts_with_chars, string_of, trim, trim_chars,
    trim_str,
};

verus! {

/// One entry of a sysfs directory: its name and, where it could be read as
/// text, its content.
pub struct SysFile {
    pub name: String,
    pub content: Option<String>,
}

/// A sysfs directory as read at one instant: its path and its entries, in
/// the order of their names.
pub struct SysDir {
    pub path: String,
    pub files: Vec<SysFile>,
}

pub open spec fn content_of(f: SysFile) -> Option<Seq<char>> {
    match f.content {
        Some(c) => Some(c@),
        None => None,
    }
}

/// The content of the first entry named `name`, if it could be read.
pub open spec fn lookup(files: Seq<SysFile>, name: Seq<char>) -> Option<Seq<char>>
    decreases files.len(),
{
    if files.len() == 0 {
        None
    } else if files[0].name@ == name {
        content_of(files[0])
    } else {
        lookup(files.drop_first(), name)
    }
}

pub open spec fn trimmed(raw: Option<Seq<char>>) -> Option<Seq<char>> {
    match raw {
        Some(t) => Some(trim(t)),
        None => None,
    }
}

pub open spec fn u64_of(raw: Option<Seq<char>>) -> Option<u64> {
    match raw {
        Some(t) => parse_u64(trim(t)),
        None => None,
    }
}

pub open spec fn i64_of(raw: Option<Seq<char>>) -> Option<i64> {
    match raw {
        Some(t) => parse_i64(trim(t)),
        None => None,
    }
}

pub open spec fn opt_view(s: Option<&str>) -> Option<Seq<char>> {
    match s {
        Some(t) => Some(t@),
        None => None,
    }
}

pub open spec fn opt_string_view(s: Option<String>) -> Option<Seq<char>> {
    match s {
        Some(t) => Some(t@),
        None => None,
    }
}

/// The index `N` of a file named `<prefix>N<suffix>`, such as `temp3_input`.
pub open spec fn sensor_index(name: Seq<char>, prefix: Seq<char>, suffix: Seq<char>) -> Option<
    Seq<char>,
> {
    if starts_with(name, prefix) && ends_with(name.skip(prefix.len() as int), suffix) {
        Some(name.subrange(prefix.len() as int, name.len() - suffix.len()))
    } else {
        None
    }
}

/// Path components as `Path::file_name` sees them: the segments between
/// slashes, without the empty ones and without `.`.
pub open spec fn path_segments(p: Seq<char>) -> Seq<Seq<char>>
    decreases p.len(),
{
    if p.len() == 0 {
        Seq::empty()
    } else {
        proof {
            lemma_last_slash(p);
        }
        let cut = last_slash(p);
        let head = if cut < 0 { Seq::<char>::empty() } else { p.take(cut) };
        let tail = p.skip(cut + 1);
        let rest = if cut < 0 { Seq::empty() } else { path_segments(head) };
        if tail.len() == 0 || tail == seq!['.'] {
            rest
        } else {
            rest.push(tail)
        }
    }
}

/// Index of the last `/` in `p`, or -1.
pub open spec fn last_slash(p: Seq<char>) -> int
    decreases p.len(),
{
    if p.len() == 0 {
        -1
    } else if p.last() == '/' {
        p.len() - 1
    } else {
        last_slash(p.drop_last())
    }
}

/// What `Path::file_name` gives: the last component, unless it is `..` or
/// there is none.
pub open spec fn file_name_of(p: Seq<char>) -> Option<Seq<char>> {
    let segs = path_segments(p);
    if segs.len() == 0 || segs.last() == seq!['.', '.'] {
        None
    } else {
        Some(segs.last())
    }
}

pub proof fn lemma_last_slash(p: Seq<char>)
    ensures
        -1 <= last_slash(p) < p.len(),
        last_slash(p) >= 0 ==> p[last_slash(p)] == '/',
        forall|k: int| last_slash(p) < k < p.len() ==> p[k] != '/',
    decreases p.len(),
{
    if p.len() > 0 && p.last() != '/' {
        lemma_last_slash(p.drop_last());
        assert forall|k: int| last_slash(p) < k < p.len() implies p[k] != '/' by {
            if k < p.len() - 1 {
                assert(p.drop_last()[k] == p[k]);
            }
        }
    }
}

/// How `file_name_of` looks at the last segment of a path.
proof fn lemma_file_name_step(p: Seq<char>)
    requires
        p.len() > 0,
    ensures
        ({
            let cut = last_slash(p);
            let tail = p.skip(cut + 1);
            if tail.len() > 0 && tail != seq!['.'] {
                file_name_of(p) == (if tail == seq!['.', '.'] {
                    None
                } else {
                    Some(tail)
                })
            } else if cut < 0 {
                file_name_of(p) is None
            } else {
                file_name_of(p) == file_name_of(p.take(cut))
            }
        }),
{
    lemma_last_slash(p);
}

proof fn lemma_last_slash_at(p: Seq<char>, c: int)
    requires
        -1 <= c < p.len(),
        c >= 0 ==> p[c] == '/',
        forall|k: int| c < k < p.len() ==> p[k] != '/',
    ensures
        last_slash(p) == c,
    decreases p.len(),
{
    if p.len() > 0 && c < p.len() - 1 {
        lemma_last_slash_at(p.drop_last(), c);
    }
}

// ---------------------------------------------------------------------------

/// The last component of a path, as `Path::file_name` gives it.
pub fn file_name(path: &str) -> (r: Option<String>)
    ensures
        opt_string_view(r) == file_name_of(path@),
{
    let v = chars_of(path);
    let mut end: usize = v.len();
    assert(v@.take(end as int) =~= v@);
    loop
        invariant
            end <= v.len(),
            v@ == path@,
            file_name_of(v@) == file_name_of(v@.take(end as int)),
        decreases end,
    {
        let mut k: usize = end;
        while k > 0 && v[k - 1] != '/'
            invariant
                k <= end <= v.len(),
                forall|j: int| k <= j < end ==> v@[j] != '/',
            decreases k,
        {
            k = k - 1;
        }
        let ghost p = v@.take(end as int);
        proof {
            if end > 0 {
                lemma_last_slash_at(p, k - 1);
                lemma_file_name_step(p);
            }
            assert(p.skip(k as int) =~= v@.subrange(k as int, end as int));
            if k > 0 {
                assert(p.take(k - 1) =~= v@.take(k - 1));
            }
        }
        let seg = slice_chars(v.as_slice(), k, end);
        let is_dot = seg.len() == 1 && seg[0] == '.';
        proof {
            if seg.len() == 1 {
                assert(is_dot == (seg@ =~= seq!['.']));
            } else {
                assert(seg@ != seq!['.']);
            }
        }
        if seg.len() > 0 && !is_dot {
            let is_dotdot = seg.len() == 2 && seg[0] == '.' && seg[1] == '.';
            proof {
                if seg.len() == 2 {
                    assert(is_dotdot == (seg@ =~= seq!['.', '.']));
                } else {
                    assert(seg@ != seq!['.', '.']);
                }
            }
            if is_dotdot {
                return None;
            }
            return Some(string_of(seg.as_slice()));
        }
        if k == 0 {
            proof {
                if end == 0 {
                    assert(p =~= Seq::<char>::empty());
                }
            }
            return None;
        }
        end = k - 1;
    }
}

/// Content of a file with white space trimmed, as the collectors read it.
pub fn read_string(raw: Option<&str>) -> (r: Option<String>)
    ensures
        opt_string_view(r) == trimmed(opt_view(raw)),
{
    match raw {
        Some(t) => Some(trim_str(t)),
        None => None,
    }
}

/// A file holding one unsigned integer.
pub fn read_u64(raw: Option<&str>) -> (r: Option<u64>)
    ensures
        r == u64_of(opt_view(raw)),
{
    match raw {
        Some(t) => {
            let v = chars_of(t);
            let w = trim_chars(v.as_slice());
            parse_u64_chars(w.as_slice())
        },
        None => None,
    }
}

/// A file holding one signed integer.
pub fn read_i64(raw: Option<&str>) -> (r: Option<i64>)
    ensures
        r == i64_of(opt_view(raw)),
{
    match raw {
        Some(t) => {
            let v = chars_of(t);
            let w = trim_chars(v.as_slice());
            parse_i64_chars(w.as_slice())
        },
        None => None,
    }
}

/// The content of the entry `name` of a directory, if it could be read.
pub fn find_content<'a>(files: &'a [SysFile], name: &[char]) -> (r: Option<&'a str>)
    ensures
        opt_view(r) == lookup(files@, name@),
{
    let mut i: usize = 0;
    assert(files@.skip(0) =~= files@);
    while i < files.len()
        invariant
            i <= files.len(),
            lookup(files@, name@) == lookup(files@.skip(i as int), name@),
        decreases files.len() - i,
    {
        assert(files@.skip(i as int).drop_first() =~= files@.skip(i + 1));
        assert(files@.skip(i as int)[0] == files@[i as int]);
        let n = chars_of(files[i].name.as_str());
        if chars_eq(n.as_slice(), name) {
            return match &files[i].content {
                Some(c) => Some(c.as_str()),
                None => None,
            };
        }
        i = i + 1;
    }
    None
}

/// The index `N` of a file named `<prefix>N<suffix>`.
pub fn sensor_index_of(name: &[char], prefix: &[char], suffix: &[char]) -> (r: Option<Vec<char>>)
    ensures
        match r {
            Some(v) => sensor_index(name@, prefix@, suffix@) == Some(v@),
            None => sensor_index(name@, prefix@, suffix@) is None,
        },
{
    if !starts_with_chars(name, prefix) {
        return None;
    }
    let rest = slice_chars(name, prefix.len(), name.len());
    assert(rest@ =~= name@.skip(prefix@.len() as int));
    if !ends_with_chars(rest.as_slice(), suffix) {
        return None;
    }
    Some(slice_chars(name, prefix.len(), name.len() - suffix.len()))
}

/// The name of a hwmon controller ("k10temp", "amdgpu", "nvme"...).
pub open spec fn hwmon_name_of(dir: SysDir) -> Option<Seq<char>> {
    trimmed(lookup(dir.files@, "name"@))
}

pub fn hwmon_name(dir: &SysDir) -> (r: Option<String>)
    ensures
        opt_string_view(r) == hwmon_name_of(*dir),
{
    let key = chars_of("name");
    read_string(find_content(dir.files.as_slice(), key.as_slice()))
}

/// The paths of the hwmon controllers of `dirs` whose name is `name`, in
/// their order (there can be several: two NVMe drives, two graphics cards).
pub open spec fn hwmon_paths_named(dirs: Seq<SysDir>, name: Seq<char>) -> Seq<Seq<char>>
    decreases dirs.len(),
{
    if dirs.len() == 0 {
        Seq::empty()
    } else {
        let rest = hwmon_paths_named(dirs.drop_last(), name);
        if hwmon_name_of(dirs.last()) == Some(name) {
            rest.push(dirs.last().path@)
        } else {
            rest
        }
    }
}

pub fn hwmon_dirs_named(dirs: &[SysDir], name: &str) -> (r: Vec<String>)
    ensures
        r@.map_values(|p: String| p@) == hwmon_paths_named(dirs@, name@),
{
    let wanted = chars_of(name);
    let mut r: Vec<String> = Vec::new();
    let mut i: usize = 0;
    while i < dirs.len()
        invariant
            i <= dirs.len(),
            wanted@ == name@,
            r@.map_values(|p: String| p@) == hwmon_paths_named(dirs@.take(i as int), name@),
        decreases dirs.len() - i,
    {
        assert(dirs@.take(i + 1).drop_last() =~= dirs@.take(i as int));
        let n = hwmon_name(&dirs[i]);
        let keep = match &n {
            Some(s) => {
                let c = chars_of(s.as_str());
                chars_eq(c.as_slice(), wanted.as_slice())
            },
            None => false,
        };
        if keep {
            r.push(dirs[i].path.clone());
            assert(r@.map_values(|p: String| p@) =~= hwmon_paths_named(
                dirs@.take(i as int),
                name@,
            ).push(dirs@[i as int].path@));
        }
        i = i + 1;
    }
    assert(dirs@.take(dirs.len() as int) =~= dirs@);
    r
}

/// A temperature sensor of a hwmon directory: its `tempN_input` value in
/// millidegrees Celsius and its `tempN_label` (empty when absent).
pub open spec fn temp_reading(files: Seq<SysFile>, f: SysFile) -> Option<(i64, Seq<char>)> {
    match sensor_index(f.name@, "temp"@, "_input"@) {
        None => None,
        Some(idx) => match i64_of(content_of(f)) {
            None => None,
            Some(v) => Some(
                (
                    v,
                    match lookup(files, "temp"@ + idx + "_label"@) {
                        Some(t) => trim(t),
                        None => Seq::empty(),
                    },
                ),
            ),
        },
    }
}

/// The readable temperature sensors among the entries `prefix` of a
/// directory whose entries are `files`, in order.
pub open spec fn temp_readings(files: Seq<SysFile>, prefix: Seq<SysFile>) -> Seq<(i64, Seq<char>)>
    decreases prefix.len(),
{
    if prefix.len() == 0 {
        Seq::empty()
    } else {
        let rest = temp_readings(files, prefix.drop_last());
        match temp_reading(files, prefix.last()) {
            Some(r) => rest.push(r),
            None => rest,
        }
    }
}

pub open spec fn is_preferred(label: Seq<char>, preferred: Seq<Seq<char>>) -> bool {
    exists|i: int| 0 <= i < preferred.len() && eq_ignore_ascii_case(label, #[trigger] preferred[i])
}

/// The value of the first reading whose label is preferred.
pub open spec fn first_preferred(rs: Seq<(i64, Seq<char>)>, preferred: Seq<Seq<char>>) -> Option<
    i64,
>
    decreases rs.len(),
{
    if rs.len() == 0 {
        None
    } else {
        match first_preferred(rs.drop_last(), preferred) {
            Some(v) => Some(v),
            None => if is_preferred(rs.last().1, preferred) {
                Some(rs.last().0)
            } else {
                None
            },
        }
    }
}

/// The temperature of a hwmon directory, in millidegrees: the first sensor
/// whose label is one of `preferred` (ASCII case ignored), else the first
/// sensor at all, else none.
pub open spec fn hwmon_temp(files: Seq<SysFile>, preferred: Seq<Seq<char>>) -> Option<i64> {
    let rs = temp_readings(files, files);
    match first_preferred(rs, preferred) {
        Some(v) => Some(v),
        None => if rs.len() > 0 {
            Some(rs[0].0)
        } else {
            None
        },
    }
}

pub open spec fn str_views(v: Seq<&str>) -> Seq<Seq<char>> {
    v.map_values(|s: &str| s@)
}

proof fn lemma_first_preferred_stays(files: Seq<SysFile>, preferred: Seq<Seq<char>>, i: int, j: int)
    requires
        0 <= i <= j <= files.len(),
        first_preferred(temp_readings(files, files.take(i)), preferred) is Some,
    ensures
        first_preferred(temp_readings(files, files.take(j)), preferred) == first_preferred(
            temp_readings(files, files.take(i)),
            preferred,
        ),
    decreases j - i,
{
    if i < j {
        lemma_first_preferred_stays(files, preferred, i, j - 1);
        assert(files.take(j).drop_last() =~= files.take(j - 1));
        let rs = temp_readings(files, files.take(j - 1));
        match temp_reading(files, files.take(j).last()) {
            Some(r) => {
                assert(rs.push(r).drop_last() =~= rs);
            },
            None => {},
        }
    }
}

/// Whether `label` is one of `preferred`, ASCII case ignored.
pub fn preferred_label(label: &[char], preferred: &[&str]) -> (r: bool)
    ensures
        r == is_preferred(label@, str_views(preferred@)),
{
    let mut i: usize = 0;
    while i < preferred.len()
        invariant
            i <= preferred.len(),
            forall|k: int|
                0 <= k < i ==> !eq_ignore_ascii_case(label@, #[trigger] str_views(preferred@)[k]),
        decreases preferred.len() - i,
    {
        let w = chars_of(preferred[i]);
        if eq_ignore_ascii_case_chars(label, w.as_slice()) {
            assert(str_views(preferred@)[i as int] == w@);
            return true;
        }
        i = i + 1;
    }
    false
}

/// Temperature of a hwmon directory in millidegrees Celsius, preferring a
/// sensor whose label is listed in `preferred` ("Tctl" on AMD, "Package id
/// 0" on Intel). Failing that, the first sensor found rather than nothing.
pub fn hwmon_temp_by_label(dir: &SysDir, preferred: &[&str]) -> (r: Option<i64>)
    ensures
        r == hwmon_temp(dir.files@, str_views(preferred@)),
{
    let files = dir.files.as_slice();
    let ghost all = files@;
    let ghost pref = str_views(preferred@);
    let temp = chars_of("temp");
    let input = chars_of("_input");
    let label_suffix = chars_of("_label");
    let mut first: Option<i64> = None;
    let mut i: usize = 0;
    assert(all.take(0) =~= Seq::<SysFile>::empty());
    while i < files.len()
        invariant
            i <= files.len(),
            all == files@,
            all == dir.files@,
            pref == str_views(preferred@),
            temp@ == "temp"@,
            input@ == "_input"@,
            label_suffix@ == "_label"@,
            first == (if temp_readings(all, all.take(i as int)).len() > 0 {
                Some(temp_readings(all, all.take(i as int))[0].0)
            } else {
                None::<i64>
            }),
            first_preferred(temp_readings(all, all.take(i as int)), pref) is None,
        decreases files.len() - i,
    {
        assert(all.take(i + 1).drop_last() =~= all.take(i as int));
        assert(all.take(i + 1).last() == all[i as int]);
        let ghost rs = temp_readings(all, all.take(i as int));
        let f = &files[i];
        let name = chars_of(f.name.as_str());
        let idx = sensor_index_of(name.as_slice(), temp.as_slice(), input.as_slice());
        if idx.is_none() {
            assert(temp_readings(all, all.take(i + 1)) == rs);
        }
        if let Some(idx) = idx {
            let raw = match &f.content {
                Some(c) => Some(c.as_str()),
                None => None,
            };
            let value = read_i64(raw);
            assert(opt_view(raw) == content_of(all[i as int]));
            if value.is_none() {
                assert(temp_readings(all, all.take(i + 1)) == rs);
            }
            if let Some(value) = value {
                if first.is_none() {
                    first = Some(value);
                }
                let mut key = temp.clone();
                append_chars(&mut key, idx.as_slice());
                append_chars(&mut key, label_suffix.as_slice());
                let label = match find_content(files, key.as_slice()) {
                    Some(t) => {
                        let c = chars_of(t);
                        trim_chars(c.as_slice())
                    },
                    None => Vec::new(),
                };
                let ghost reading = (value, label@);
                assert(key@ == "temp"@ + idx@ + "_label"@);
                assert(temp_reading(all, all[i as int]) == Some(reading));
                assert(temp_readings(all, all.take(i + 1)) == rs.push(reading));
                assert(rs.push(reading).drop_last() =~= rs);
                if preferred_label(label.as_slice(), preferred) {
                    proof {
                        assert(first_preferred(rs.push(reading), pref) == Some(value));
                        lemma_first_preferred_stays(all, pref, i + 1, all.len() as int);
                        assert(all.take(all.len() as int) =~= all);
                        assert(first_preferred(temp_readings(all, all), pref) == Some(value));
                        assert(all == dir.files@);
                        assert(pref == str_views(preferred@));
                    }
                    return Some(value);
                }
            }
        }
        i = i + 1;
    }
    assert(all.take(all.len() as int) =~= all);
    first
}

} // verus!
