use vstd::prelude::*;
use crate::text::{
    char_is_control, chars_of, is_blank, is_ctrl, is_ws, push_char, push_chars, push_str, str_eq,
    string_of, strip_class, trim, trim_bounds, trim_dots, trim_end_by, trim_start_by,
};

verus! {

/// The settings kept in `config.yaml`.
#[derive(Clone, Debug)]
pub struct AppConfig {
    pub gemini_api_key: String,
    pub resolution: String,
    pub video_source: Option<String>,
    pub microphone: Option<String>,
}

/// The label of the resolution that settings start with.
pub fn default_resolution() -> (r: String)
    ensures
        r@ == "1080p"@,
{
    let mut s = String::new();
    push_str(&mut s, "1080p");
    s
}

impl Default for AppConfig {
    fn default() -> (r: AppConfig)
        ensures
            r.gemini_api_key@ == Seq::<char>::empty(),
            r.resolution@ == "1080p"@,
            r.video_source is None,
            r.microphone is None,
    {
        AppConfig {
            gemini_api_key: String::new(),
            resolution: default_resolution(),
            video_source: None,
            microphone: None,
        }
    }
}

impl AppConfig {
    /// Whether a Gemini API key has been entered (white space alone does not count).
    pub fn has_key(&self) -> (r: bool)
        ensures
            r == (trim(self.gemini_api_key@).len() > 0),
    {
        !is_blank(self.gemini_api_key.as_str())
    }
}

/// The `project.yaml` kept in each project folder.
#[derive(Clone, Debug)]
pub struct ProjectYaml {
    pub id: String,
    pub title: String,
    pub topic: Option<String>,
    pub created_at: String,
}

// ---------------------------------------------------------------------------
// Paths
// ---------------------------------------------------------------------------

/// `Path::join` of a relative or absolute `name` onto `base`: an absolute name replaces the
/// base; otherwise a `/` goes between them unless the base is empty or already ends in one.
pub open spec fn path_join(base: Seq<char>, name: Seq<char>) -> Seq<char> {
    if name.len() > 0 && name[0] == '/' {
        name
    } else if base.len() == 0 || base.last() == '/' {
        base + name
    } else {
        base + seq!['/'] + name
    }
}

pub fn join_path(base: &str, name: &str) -> (r: String)
    ensures
        r@ == path_join(base@, name@),
{
    let b = chars_of(base);
    let n = chars_of(name);
    let mut out = String::new();
    if n.len() > 0 && n[0] == '/' {
        push_str(&mut out, name);
        assert(out@ =~= name@);
        return out;
    }
    push_str(&mut out, base);
    if b.len() > 0 && b[b.len() - 1] != '/' {
        push_char(&mut out, '/');
    }
    push_str(&mut out, name);
    assert(out@ =~= path_join(base@, name@));
    out
}

/// The folder that holds settings and the database: `SpeakEasy` in the user's data folder.
pub fn app_support_dir(data_dir: Option<&str>) -> (r: Result<String, String>)
    ensures
        data_dir is None ==> (r matches Err(e) && e@ == "Could not find Application Support"@),
        data_dir matches Some(d) ==> (r matches Ok(p) && p@ == path_join(d@, "SpeakEasy"@)),
{
    match data_dir {
        Some(d) => Ok(join_path(d, "SpeakEasy")),
        None => {
            let mut e = String::new();
            push_str(&mut e, "Could not find Application Support");
            Err(e)
        },
    }
}

pub fn config_path(support_dir: &str) -> (r: String)
    ensures
        r@ == path_join(support_dir@, "config.yaml"@),
{
    join_path(support_dir, "config.yaml")
}

pub fn db_path(support_dir: &str) -> (r: String)
    ensures
        r@ == path_join(support_dir@, "speakeasy.sqlite"@),
{
    join_path(support_dir, "speakeasy.sqlite")
}

/// Where projects are stored: `SpeakEasy` in the user's video folder, or in `~/Movies`
/// when the system names no video folder.
pub fn movies_root(video_dir: Option<&str>, home_dir: Option<&str>) -> (r: Result<String, String>)
    ensures
        video_dir matches Some(v) ==> (r matches Ok(p) && p@ == path_join(v@, "SpeakEasy"@)),
        (video_dir is None && home_dir is Some) ==> (r matches Ok(p) && p@ == path_join(
            path_join(home_dir.unwrap()@, "Movies"@),
            "SpeakEasy"@,
        )),
        (video_dir is None && home_dir is None) ==> (r matches Err(e) && e@
            == "Could not find the Movies folder"@),
{
    match video_dir {
        Some(v) => Ok(join_path(v, "SpeakEasy")),
        None => match home_dir {
            Some(h) => {
                let movies = join_path(h, "Movies");
                Ok(join_path(movies.as_str(), "SpeakEasy"))
            },
            None => {
                let mut e = String::new();
                push_str(&mut e, "Could not find the Movies folder");
                Err(e)
            },
        },
    }
}

// ---------------------------------------------------------------------------
// Folder names
// ---------------------------------------------------------------------------

/// Characters that folder names may not hold; each becomes `-`.
pub open spec fn forbidden(c: char) -> bool {
    c == '/' || c == '\\' || c == ':' || c == '*' || c == '?' || c == '"' || c == '<' || c == '>'
        || c == '|'
}

/// Each forbidden character replaced by `-` and each control character dropped.
pub open spec fn clean_chars(s: Seq<char>) -> Seq<char>
    decreases s.len(),
{
    if s.len() == 0 {
        seq![]
    } else {
        let c = s.last();
        clean_chars(s.drop_last()) + (if forbidden(c) {
            seq!['-']
        } else if is_ctrl(c) {
            seq![]
        } else {
            seq![c]
        })
    }
}

/// The folder name for a project title: the cleaned title without surrounding white space
/// and dots, or `Untitled` when nothing is left.
pub open spec fn folder_name(title: Seq<char>) -> Seq<char> {
    let t = trim(trim_dots(trim(clean_chars(trim(title)))));
    if t.len() == 0 {
        "Untitled"@
    } else {
        t
    }
}

pub fn is_forbidden(c: char) -> (r: bool)
    ensures
        r == forbidden(c),
{
    c == '/' || c == '\\' || c == ':' || c == '*' || c == '?' || c == '"' || c == '<' || c == '>'
        || c == '|'
}

pub fn sanitize_folder_name(title: &str) -> (r: String)
    ensures
        r@ == folder_name(title@),
{
    let v = chars_of(title);
    let (lo, hi) = trim_bounds(&v, 0, v.len(), false);
    assert(v@.subrange(0, v@.len() as int) =~= v@);
    let ghost t = v@.subrange(lo as int, hi as int);
    let mut out: Vec<char> = Vec::new();
    let mut i = lo;
    assert(t.take(0) =~= Seq::<char>::empty());
    while i < hi
        invariant
            lo <= i <= hi <= v@.len(),
            t == v@.subrange(lo as int, hi as int),
            out@ == clean_chars(t.take(i - lo)),
        decreases hi - i,
    {
        let c = v[i];
        let ghost before = out@;
        if is_forbidden(c) {
            out.push('-');
        } else if !char_is_control(c) {
            out.push(c);
        }
        proof {
            let p = t.take(i + 1 - lo);
            assert(p.drop_last() =~= t.take(i - lo));
            assert(p.last() == c);
            assert(out@ =~= clean_chars(p));
        }
        i = i + 1;
    }
    assert(t.take(hi - lo) =~= t);
    let (a, b) = trim_bounds(&out, 0, out.len(), false);
    assert(out@.subrange(0, out@.len() as int) =~= out@);
    let (c, d) = trim_bounds(&out, a, b, true);
    let (e, f) = trim_bounds(&out, c, d, false);
    if e == f {
        let mut s = String::new();
        push_str(&mut s, "Untitled");
        s
    } else {
        string_of(&out, e, f)
    }
}

/// Characters that are fine in a folder name.
pub open spec fn safe_char(c: char) -> bool {
    !forbidden(c) && !is_ctrl(c)
}

proof fn lemma_clean_chars_safe(s: Seq<char>)
    ensures
        forall|k: int| 0 <= k < clean_chars(s).len() ==> safe_char(#[trigger] clean_chars(s)[k]),
    decreases s.len(),
{
    if s.len() > 0 {
        lemma_clean_chars_safe(s.drop_last());
        let a = clean_chars(s.drop_last());
        let c = s.last();
        let tail: Seq<char> = if forbidden(c) {
            seq!['-']
        } else if is_ctrl(c) {
            seq![]
        } else {
            seq![c]
        };
        assert(clean_chars(s) == a + tail);
        assert forall|k: int| 0 <= k < clean_chars(s).len() implies safe_char(
            #[trigger] clean_chars(s)[k],
        ) by {
            if k < a.len() {
                assert(clean_chars(s)[k] == a[k]);
            } else {
                assert(clean_chars(s)[k] == tail[k - a.len()]);
            }
        }
    }
}

proof fn lemma_trim_start_safe(s: Seq<char>, dots: bool)
    requires
        forall|k: int| 0 <= k < s.len() ==> safe_char(#[trigger] s[k]),
    ensures
        forall|k: int|
            0 <= k < trim_start_by(s, dots).len() ==> safe_char(#[trigger] trim_start_by(s, dots)[k]),
    decreases s.len(),
{
    if s.len() > 0 && strip_class(s[0], dots) {
        assert forall|k: int| 0 <= k < s.drop_first().len() implies safe_char(
            #[trigger] s.drop_first()[k],
        ) by {
            assert(s.drop_first()[k] == s[k + 1]);
        }
        lemma_trim_start_safe(s.drop_first(), dots);
        assert(trim_start_by(s, dots) == trim_start_by(s.drop_first(), dots));
    } else {
        assert(trim_start_by(s, dots) == s);
    }
}

proof fn lemma_trim_end_safe(s: Seq<char>, dots: bool)
    requires
        forall|k: int| 0 <= k < s.len() ==> safe_char(#[trigger] s[k]),
    ensures
        forall|k: int|
            0 <= k < trim_end_by(s, dots).len() ==> safe_char(#[trigger] trim_end_by(s, dots)[k]),
    decreases s.len(),
{
    if s.len() > 0 && strip_class(s.last(), dots) {
        assert forall|k: int| 0 <= k < s.drop_last().len() implies safe_char(
            #[trigger] s.drop_last()[k],
        ) by {
            assert(s.drop_last()[k] == s[k]);
        }
        lemma_trim_end_safe(s.drop_last(), dots);
        assert(trim_end_by(s, dots) == trim_end_by(s.drop_last(), dots));
    } else {
        assert(trim_end_by(s, dots) == s);
    }
}

proof fn lemma_trim_both_safe(s: Seq<char>, dots: bool)
    requires
        forall|k: int| 0 <= k < s.len() ==> safe_char(#[trigger] s[k]),
    ensures
        forall|k: int|
            0 <= k < trim_end_by(trim_start_by(s, dots), dots).len() ==> safe_char(
                #[trigger] trim_end_by(trim_start_by(s, dots), dots)[k],
            ),
{
    lemma_trim_start_safe(s, dots);
    lemma_trim_end_safe(trim_start_by(s, dots), dots);
}

/// A project folder name is never empty and never holds a path separator, a character
/// that file systems refuse, or a control character.
pub proof fn lemma_folder_name_safe(title: Seq<char>)
    ensures
        folder_name(title).len() > 0,
        forall|k: int|
            0 <= k < folder_name(title).len() ==> safe_char(#[trigger] folder_name(title)[k]),
{
    let c = clean_chars(trim(title));
    lemma_clean_chars_safe(trim(title));
    lemma_trim_both_safe(c, false);
    lemma_trim_both_safe(trim(c), true);
    lemma_trim_both_safe(trim_dots(trim(c)), false);
    reveal_strlit("Untitled");
}

proof fn lemma_clean_keeps_safe(s: Seq<char>)
    requires
        forall|k: int| 0 <= k < s.len() ==> safe_char(#[trigger] s[k]),
    ensures
        clean_chars(s) == s,
    decreases s.len(),
{
    if s.len() > 0 {
        assert forall|k: int| 0 <= k < s.drop_last().len() implies safe_char(#[trigger] s.drop_last()[k]) by {
            assert(s.drop_last()[k] == s[k]);
        }
        lemma_clean_keeps_safe(s.drop_last());
        assert(safe_char(s[s.len() - 1]));
        assert(s.drop_last().push(s.last()) =~= s);
    }
}

/// A title that is already a good folder name (no forbidden or control character, and no
/// white space or dot at either end) is used as it is.
pub proof fn lemma_clean_title_kept(title: Seq<char>)
    requires
        title.len() > 0,
        forall|k: int| 0 <= k < title.len() ==> safe_char(#[trigger] title[k]),
        !is_ws(title[0]) && !is_ws(title.last()),
        title[0] != '.' && title.last() != '.',
    ensures
        folder_name(title) == title,
{
    assert(trim(title) == title);
    lemma_clean_keeps_safe(title);
    assert(trim_dots(title) == title);
}

// ---------------------------------------------------------------------------
// Project folders
// ---------------------------------------------------------------------------

/// The number of bytes of a character in UTF-8.
pub open spec fn utf8_len(c: char) -> nat {
    let u = c as u32;
    if u < 0x80 {
        1
    } else if u < 0x800 {
        2
    } else if u < 0x10000 {
        3
    } else {
        4
    }
}

/// The leading characters of `s` that take exactly `n` bytes in UTF-8, if a character
/// boundary falls there (`str::get(..n)`).
pub open spec fn byte_prefix(s: Seq<char>, n: int) -> Option<Seq<char>>
    decreases s.len(),
{
    if n == 0 {
        Some(seq![])
    } else if s.len() == 0 || utf8_len(s[0]) > n {
        None
    } else {
        match byte_prefix(s.drop_first(), n - utf8_len(s[0])) {
            Some(p) => Some(seq![s[0]] + p),
            None => None,
        }
    }
}

/// The part of a project id that tells two folders of the same name apart: its first
/// eight bytes, or the whole id when they do not end on a character boundary.
pub open spec fn id_suffix(id: Seq<char>) -> Seq<char> {
    match byte_prefix(id, 8) {
        Some(p) => p,
        None => id,
    }
}

pub fn char_utf8_len(c: char) -> (r: usize)
    ensures
        r == utf8_len(c),
{
    let u = c as u32;
    if u < 0x80 {
        1
    } else if u < 0x800 {
        2
    } else if u < 0x10000 {
        3
    } else {
        4
    }
}

pub fn project_id_suffix(id: &str) -> (r: String)
    ensures
        r@ == id_suffix(id@),
{
    let v = chars_of(id);
    let mut left: usize = 8;
    let mut i: usize = 0;
    assert(v@.skip(0) =~= v@);
    assert(v@.take(0) =~= Seq::<char>::empty());
    while left > 0 && i < v.len() && char_utf8_len(v[i]) <= left
        invariant
            v@ == id@,
            0 <= i <= v@.len(),
            left <= 8,
            byte_prefix(v@, 8) == (match byte_prefix(v@.skip(i as int), left as int) {
                Some(p) => Some(v@.take(i as int) + p),
                None => None::<Seq<char>>,
            }),
        decreases v@.len() - i,
    {
        let ghost rest = v@.skip(i as int);
        assert(rest[0] == v@[i as int]);
        assert(rest.drop_first() =~= v@.skip(i + 1));
        assert(v@.take(i + 1) =~= v@.take(i as int) + seq![v@[i as int]]);
        proof {
            let next = byte_prefix(rest.drop_first(), left - utf8_len(rest[0]));
            match next {
                Some(p) => {
                    assert(v@.take(i as int) + (seq![rest[0]] + p) =~= v@.take(i + 1) + p);
                },
                None => {},
            }
        }
        left = left - char_utf8_len(v[i]);
        i = i + 1;
    }
    if left == 0 {
        assert(v@.take(i as int) + Seq::<char>::empty() =~= v@.take(i as int));
        string_of(&v, 0, i)
    } else {
        assert(v@.subrange(0, v@.len() as int) =~= v@);
        string_of(&v, 0, v.len())
    }
}

/// The folder for a project: the cleaned title under `root`, or `title-suffix` when a
/// folder of that name exists and does not hold this project. `existing` is `None` when no
/// such folder exists, `Some(None)` when it exists without a readable `project.yaml`, and
/// `Some(Some(other))` when its `project.yaml` names project `other`.
pub open spec fn project_folder(
    root: Seq<char>,
    title: Seq<char>,
    id: Seq<char>,
    existing: Option<Option<Seq<char>>>,
) -> Seq<char> {
    let base = folder_name(title);
    let taken = match existing {
        None => false,
        Some(Some(other)) => other != id,
        Some(None) => true,
    };
    if taken {
        path_join(root, base + seq!['-'] + id_suffix(id))
    } else {
        path_join(root, base)
    }
}

pub fn project_dir(root: &str, title: &str, id: &str, existing: Option<Option<&str>>) -> (r: String)
    ensures
        r@ == project_folder(
            root@,
            title@,
            id@,
            match existing {
                None => None,
                Some(None) => Some(None),
                Some(Some(o)) => Some(Some(o@)),
            },
        ),
{
    let base = sanitize_folder_name(title);
    let taken = match existing {
        None => false,
        Some(Some(other)) => !str_eq(other, id),
        Some(None) => true,
    };
    if taken {
        let mut name = base;
        push_char(&mut name, '-');
        let suffix = project_id_suffix(id);
        push_str(&mut name, suffix.as_str());
        join_path(root, name.as_str())
    } else {
        join_path(root, base.as_str())
    }
}

} // verus!
