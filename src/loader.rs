//! Building an application's profile list from what its profile
//! directories hold. Reading the directories and files is left to the
//! caller: `plan_scans` says what to read, and `build_app_config` turns
//! what was read into the catalogue entry.
use crate::config::{entries_view, AppConfig, AppEntry, EntryView, LoadError, OptEntry, Ron};
use crate::pattern::{
    captures_iter, caps_view, opt_view, regex_captures, title_case, to_title, Capture,
};
use crate::text::{trim, trim_text};
use vstd::prelude::*;
use vstd::string::*;

verus! {

/// `rest` appended to the directory `base` with one separator; an absolute
/// `rest` stands alone.
pub open spec fn join_path(base: Seq<char>, rest: Seq<char>) -> Seq<char> {
    if rest.len() > 0 && rest[0] == '/' {
        rest
    } else if base.len() > 0 && base.last() == '/' {
        base + rest
    } else {
        base + "/"@ + rest
    }
}

/// A directory written relative to the home directory (`~/...`).
pub open spec fn home_relative(d: Seq<char>) -> bool {
    d.len() >= 2 && d[0] == '~' && d[1] == '/'
}

/// The directory that `d` names, given the home directory if one is known.
pub open spec fn resolve_dir(d: Seq<char>, home: Option<Seq<char>>) -> Option<Seq<char>> {
    if home_relative(d) {
        match home {
            Some(h) => Some(join_path(h, d.subrange(2, d.len() as int))),
            None => None,
        }
    } else {
        Some(d)
    }
}

/// What to read for one profile directory: the directory itself, and in
/// content mode the path of the file whose text is scanned.
pub struct ScanTarget {
    pub dir: String,
    pub file: Option<String>,
}

impl View for ScanTarget {
    type V = (Seq<char>, Option<Seq<char>>);

    open spec fn view(&self) -> (Seq<char>, Option<Seq<char>>) {
        (self.dir@, opt_view(self.file))
    }
}

pub open spec fn target_of(dir: Seq<char>, file: Option<Seq<char>>) -> (
    Seq<char>,
    Option<Seq<char>>,
) {
    (
        dir,
        match file {
            Some(f) => Some(join_path(dir, f)),
            None => None,
        },
    )
}

/// What is to be read for the profile directory `i` of `ron`; `None` when
/// it cannot be resolved.
pub open spec fn planned(ron: Ron, home: Option<Seq<char>>, i: int) -> Option<
    (Seq<char>, Option<Seq<char>>),
> {
    match resolve_dir(ron.profile_dirs@[i]@, home) {
        Some(d) => Some(target_of(d, opt_view(ron.profile_filename))),
        None => None,
    }
}

/// What was read for one profile directory.
pub enum ScanInput {
    /// The text of the profile file (content mode).
    Contents { text: String },
    /// The names of the directory's entries, in listing order.
    Listing { dir: String, names: Vec<String> },
}

pub open spec fn names_view(v: Seq<String>) -> Seq<Seq<char>> {
    v.map_values(|s: String| s@)
}

pub open spec fn content_line(ron: Ron, raw: Seq<char>) -> Seq<char> {
    ron.cmd@ + " "@ + ron.args@ + " '"@ + raw + "'"@
}

pub open spec fn listing_line(ron: Ron, dir: Seq<char>, whole: Seq<char>) -> Seq<char> {
    ron.cmd@ + " "@ + ron.args@ + " "@ + dir + "/"@ + whole
}

/// The entries found by the matches `caps` in a profile file; `None` when
/// one of them has no group 1.
pub open spec fn content_entries_spec(ron: Ron, caps: Seq<(Seq<char>, Option<Seq<char>>)>) -> Option<
    Seq<EntryView>,
>
    decreases caps.len(),
{
    if caps.len() == 0 {
        Some(Seq::empty())
    } else {
        match content_entries_spec(ron, caps.drop_last()) {
            None => None,
            Some(prev) => match caps.last().1 {
                None => None,
                Some(g) => Some(
                    prev.push(
                        EntryView { name: title_case(g), desc: Seq::empty(), cmd: content_line(ron, g) },
                    ),
                ),
            },
        }
    }
}

/// The matches of a pattern in one text, as `regex_captures` gives them.
pub type Caps = Seq<(Seq<char>, Option<Seq<char>>)>;

/// The entries found in a directory listing, given the matches `cs` of the
/// pattern in each file name: one for each name that has a match, built
/// from its first match; `None` when such a match has no group 1.
pub open spec fn listing_caps_spec(ron: Ron, dir: Seq<char>, cs: Seq<Caps>) -> Option<
    Seq<EntryView>,
>
    decreases cs.len(),
{
    if cs.len() == 0 {
        Some(Seq::empty())
    } else {
        match listing_caps_spec(ron, dir, cs.drop_last()) {
            None => None,
            Some(prev) => {
                let caps = cs.last();
                if caps.len() == 0 {
                    Some(prev)
                } else {
                    match caps[0].1 {
                        None => None,
                        Some(g) => Some(
                            prev.push(
                                EntryView {
                                    name: title_case(g),
                                    desc: Seq::empty(),
                                    cmd: listing_line(ron, dir, caps[0].0),
                                },
                            ),
                        ),
                    }
                }
            },
        }
    }
}

/// The matches of the pattern of `ron` in each of `names`.
pub open spec fn name_captures(ron: Ron, names: Seq<Seq<char>>) -> Seq<Caps> {
    names.map_values(|n: Seq<char>| regex_captures(ron.profile_regex@, n))
}

/// The entries found among the file names `names` of `dir`.
pub open spec fn listing_entries_spec(ron: Ron, dir: Seq<char>, names: Seq<Seq<char>>) -> Option<
    Seq<EntryView>,
> {
    listing_caps_spec(ron, dir, name_captures(ron, names))
}

pub open spec fn listing_view(v: Seq<Vec<Capture>>) -> Seq<Caps> {
    v.map_values(|c: Vec<Capture>| caps_view(c@))
}

pub open spec fn scan_spec(ron: Ron, s: ScanInput) -> Option<Seq<EntryView>> {
    match s {
        ScanInput::Contents { text } => content_entries_spec(
            ron,
            regex_captures(ron.profile_regex@, text@),
        ),
        ScanInput::Listing { dir, names } => listing_entries_spec(ron, dir@, names_view(names@)),
    }
}

/// The entries found by all scans, in order; `None` when one scan fails.
pub open spec fn scans_spec(ron: Ron, ss: Seq<ScanInput>) -> Option<Seq<EntryView>>
    decreases ss.len(),
{
    if ss.len() == 0 {
        Some(Seq::empty())
    } else {
        match scans_spec(ron, ss.drop_last()) {
            None => None,
            Some(prev) => match scan_spec(ron, ss.last()) {
                None => None,
                Some(more) => Some(prev + more),
            },
        }
    }
}

/// The launch line of a declared entry: its command (or the record's)
/// and its arguments, joined by a space and trimmed.
pub open spec fn static_line(ron: Ron, o: OptEntry) -> Seq<char> {
    let c = match o.cmd {
        Some(c) => c@,
        None => ron.cmd@,
    };
    let a = match o.args {
        Some(a) => a@,
        None => Seq::empty(),
    };
    trim(c + " "@ + a)
}

pub open spec fn static_entry(ron: Ron, o: OptEntry) -> EntryView {
    EntryView {
        name: title_case(o.name@),
        desc: match o.desc {
            Some(d) => d@,
            None => "optional"@,
        },
        cmd: static_line(ron, o),
    }
}

/// The entries declared in the configuration.
pub open spec fn static_entries_spec(ron: Ron) -> Seq<EntryView> {
    match ron.opt_entries {
        Some(v) => v@.map_values(|o: OptEntry| static_entry(ron, o)),
        None => Seq::empty(),
    }
}

/// `a` is the catalogue entry for the document `name` holding `ron`, with
/// the entries of the scans `ss` followed by the declared entries.
pub open spec fn built_from(a: AppConfig, name: String, ron: Ron, ss: Seq<ScanInput>) -> bool {
    &&& a.name == name
    &&& a.conf == ron
    &&& scans_spec(ron, ss) is Some
    &&& entries_view(a.entries@) == scans_spec(ron, ss)->0 + static_entries_spec(ron)
}

fn cat(a: &str, b: &str) -> (r: String)
    ensures
        r@ == a@ + b@,
{
    String::from_str(a).concat(b)
}

fn join_path_exec(base: &str, rest: &str) -> (r: String)
    ensures
        r@ == join_path(base@, rest@),
{
    let n = base.unicode_len();
    if rest.unicode_len() > 0 && rest.get_char(0) == '/' {
        String::from_str(rest)
    } else if n > 0 && base.get_char(n - 1) == '/' {
        cat(base, rest)
    } else {
        cat(base, "/").concat(rest)
    }
}

fn resolve(d: &str, home: &Option<String>) -> (r: Option<String>)
    ensures
        opt_view(r) == resolve_dir(d@, opt_view(*home)),
{
    let n = d.unicode_len();
    if n >= 2 && d.get_char(0) == '~' && d.get_char(1) == '/' {
        match home {
            Some(h) => Some(join_path_exec(h.as_str(), d.substring_char(2, n))),
            None => None,
        }
    } else {
        Some(String::from_str(d))
    }
}

/// Resolves the profile directories of `ron` against the home directory
/// `home`, and says for each what to read. Fails with `NoHome` exactly when
/// a directory is home-relative and `home` is `None`.
pub fn plan_scans(ron: &Ron, home: Option<String>) -> (r: Result<Vec<ScanTarget>, LoadError>)
    ensures
        match r {
            Ok(t) => {
                &&& t@.len() == ron.profile_dirs@.len()
                &&& forall|i: int|
                    0 <= i < t@.len() ==> Some(#[trigger] t@[i]@) == planned(*ron, opt_view(home), i)
            },
            Err(e) => e is NoHome && exists|i: int|
                0 <= i < ron.profile_dirs@.len() && #[trigger] planned(*ron, opt_view(home), i)
                    is None,
        },
{
    let mut out: Vec<ScanTarget> = Vec::new();
    let mut i: usize = 0;
    while i < ron.profile_dirs.len()
        invariant
            i <= ron.profile_dirs@.len(),
            out@.len() == i,
            forall|k: int|
                0 <= k < i ==> Some(#[trigger] out@[k]@) == planned(*ron, opt_view(home), k),
        decreases ron.profile_dirs@.len() - i,
    {
        match resolve(ron.profile_dirs[i].as_str(), &home) {
            None => {
                assert(planned(*ron, opt_view(home), i as int) is None);
                return Err(LoadError::NoHome);
            },
            Some(dir) => {
                let file = match &ron.profile_filename {
                    Some(f) => Some(join_path_exec(dir.as_str(), f.as_str())),
                    None => None,
                };
                let ghost old_out = out@;
                let t = ScanTarget { dir, file };
                assert(Some(t@) == planned(*ron, opt_view(home), i as int));
                out.push(t);
                assert(forall|k: int| 0 <= k < i ==> out@[k] == old_out[k]);
            },
        }
        i += 1;
    }
    Ok(out)
}


proof fn lemma_content_fails(ron: Ron, caps: Seq<(Seq<char>, Option<Seq<char>>)>, i: int)
    requires
        0 <= i <= caps.len(),
        content_entries_spec(ron, caps.take(i)) is None,
    ensures
        content_entries_spec(ron, caps) is None,
    decreases caps.len() - i,
{
    if i < caps.len() {
        assert(caps.take(i + 1).drop_last() =~= caps.take(i));
        lemma_content_fails(ron, caps, i + 1);
    } else {
        assert(caps.take(i) =~= caps);
    }
}

proof fn lemma_listing_fails(ron: Ron, dir: Seq<char>, cs: Seq<Caps>, i: int)
    requires
        0 <= i <= cs.len(),
        listing_caps_spec(ron, dir, cs.take(i)) is None,
    ensures
        listing_caps_spec(ron, dir, cs) is None,
    decreases cs.len() - i,
{
    if i < cs.len() {
        assert(cs.take(i + 1).drop_last() =~= cs.take(i));
        lemma_listing_fails(ron, dir, cs, i + 1);
    } else {
        assert(cs.take(i) =~= cs);
    }
}

proof fn lemma_scans_fail(ron: Ron, ss: Seq<ScanInput>, i: int)
    requires
        0 <= i <= ss.len(),
        scans_spec(ron, ss.take(i)) is None,
    ensures
        scans_spec(ron, ss) is None,
    decreases ss.len() - i,
{
    if i < ss.len() {
        assert(ss.take(i + 1).drop_last() =~= ss.take(i));
        lemma_scans_fail(ron, ss, i + 1);
    } else {
        assert(ss.take(i) =~= ss);
    }
}

/// The entries for a profile file, given the matches `caps` of the pattern
/// of `ron` in its text: one for each match, named by its group 1 in title
/// case, launched with that group quoted. Fails when a match has no group 1.
pub fn entries_from_contents(ron: &Ron, caps: &Vec<Capture>) -> (r: Result<
    Vec<AppEntry>,
    LoadError,
>)
    ensures
        match r {
            Ok(v) => content_entries_spec(*ron, caps_view(caps@)) == Some(entries_view(v@)),
            Err(e) => e is MissingCaptureGroup && content_entries_spec(*ron, caps_view(caps@))
                is None,
        },
{
    let ghost cv = caps_view(caps@);
    let mut out: Vec<AppEntry> = Vec::new();
    let mut i: usize = 0;
    while i < caps.len()
        invariant
            cv == caps_view(caps@),
            i <= caps@.len(),
            content_entries_spec(*ron, cv.take(i as int)) == Some(entries_view(out@)),
        decreases caps@.len() - i,
    {
        let cap = &caps[i];
        proof {
            assert(cv.take(i + 1).drop_last() =~= cv.take(i as int));
            assert(cv.take(i + 1).last() == cap@);
        }
        match &cap.group {
            None => {
                proof {
                    lemma_content_fails(*ron, cv, i + 1);
                }
                return Err(LoadError::MissingCaptureGroup);
            },
            Some(g) => {
                let line = cat(ron.cmd.as_str(), " ").concat(ron.args.as_str()).concat(
                    " '",
                ).concat(g.as_str()).concat("'");
                let e = AppEntry { name: to_title(g.as_str()), desc: String::new(), cmd: line };
                let ghost before = entries_view(out@);
                out.push(e);
                assert(entries_view(out@) =~= before.push(e@));
            },
        }
        i += 1;
    }
    assert(cv.take(i as int) =~= cv);
    Ok(out)
}

/// The entries for the profile file of `ron` whose text is `text`.
pub fn content_entries(ron: &Ron, text: &str) -> (r: Result<Vec<AppEntry>, LoadError>)
    ensures
        match r {
            Ok(v) => content_entries_spec(*ron, regex_captures(ron.profile_regex@, text@)) == Some(
                entries_view(v@),
            ),
            Err(e) => e is MissingCaptureGroup && content_entries_spec(
                *ron,
                regex_captures(ron.profile_regex@, text@),
            ) is None,
        },
{
    let caps = captures_iter(&ron.profile_regex, text);
    entries_from_contents(ron, &caps)
}

/// The entries for a listing of `dir`, given the matches `caps` of the
/// pattern of `ron` in each file name, in listing order: one for each name
/// with a match, named by group 1 of its first match in title case and
/// launched with `dir/<matched text>`. Names without a match are skipped; a
/// first match without group 1 fails.
pub fn entries_from_listing(ron: &Ron, dir: &str, caps: &Vec<Vec<Capture>>) -> (r: Result<
    Vec<AppEntry>,
    LoadError,
>)
    ensures
        match r {
            Ok(v) => listing_caps_spec(*ron, dir@, listing_view(caps@)) == Some(entries_view(v@)),
            Err(e) => e is MissingCaptureGroup && listing_caps_spec(
                *ron,
                dir@,
                listing_view(caps@),
            ) is None,
        },
{
    let ghost cs = listing_view(caps@);
    let mut out: Vec<AppEntry> = Vec::new();
    let mut i: usize = 0;
    while i < caps.len()
        invariant
            cs == listing_view(caps@),
            i <= caps@.len(),
            listing_caps_spec(*ron, dir@, cs.take(i as int)) == Some(entries_view(out@)),
        decreases caps@.len() - i,
    {
        let these = &caps[i];
        proof {
            assert(cs.take(i + 1).drop_last() =~= cs.take(i as int));
            assert(cs.take(i + 1).last() == caps_view(these@));
        }
        if these.len() > 0 {
            let cap = &these[0];
            assert(caps_view(these@)[0] == cap@);
            match &cap.group {
                None => {
                    proof {
                        lemma_listing_fails(*ron, dir@, cs, i + 1);
                    }
                    return Err(LoadError::MissingCaptureGroup);
                },
                Some(g) => {
                    let line = cat(ron.cmd.as_str(), " ").concat(ron.args.as_str()).concat(
                        " ",
                    ).concat(dir).concat("/").concat(cap.whole.as_str());
                    let e = AppEntry { name: to_title(g.as_str()), desc: String::new(), cmd: line };
                    let ghost before = entries_view(out@);
                    out.push(e);
                    assert(entries_view(out@) =~= before.push(e@));
                },
            }
        }
        i += 1;
    }
    assert(cs.take(i as int) =~= cs);
    Ok(out)
}

/// The entries for the file names `names` of the directory `dir`, in
/// listing order.
pub fn listing_entries(ron: &Ron, dir: &str, names: &Vec<String>) -> (r: Result<
    Vec<AppEntry>,
    LoadError,
>)
    ensures
        match r {
            Ok(v) => listing_entries_spec(*ron, dir@, names_view(names@)) == Some(
                entries_view(v@),
            ),
            Err(e) => e is MissingCaptureGroup && listing_entries_spec(
                *ron,
                dir@,
                names_view(names@),
            ) is None,
        },
{
    let mut all: Vec<Vec<Capture>> = Vec::new();
    let mut i: usize = 0;
    while i < names.len()
        invariant
            i <= names@.len(),
            all@.len() == i,
            forall|k: int|
                0 <= k < i ==> #[trigger] caps_view(all@[k]@) == regex_captures(
                    ron.profile_regex@,
                    names@[k]@,
                ),
        decreases names@.len() - i,
    {
        all.push(captures_iter(&ron.profile_regex, names[i].as_str()));
        i += 1;
    }
    assert(listing_view(all@) =~= name_captures(*ron, names_view(names@)));
    entries_from_listing(ron, dir, &all)
}

/// The declared entries of `ron`, in order.
pub fn static_entries(ron: &Ron) -> (r: Vec<AppEntry>)
    ensures
        entries_view(r@) == static_entries_spec(*ron),
{
    let mut out: Vec<AppEntry> = Vec::new();
    match &ron.opt_entries {
        None => {
            assert(entries_view(out@) =~= static_entries_spec(*ron));
        },
        Some(opts) => {
            let mut i: usize = 0;
            while i < opts.len()
                invariant
                    ron.opt_entries == Some(*opts),
                    i <= opts@.len(),
                    out@.len() == i,
                    forall|k: int|
                        0 <= k < i ==> #[trigger] out@[k]@ == static_entry(*ron, opts@[k]),
                decreases opts@.len() - i,
            {
                let o = &opts[i];
                let base = match &o.cmd {
                    Some(c) => c.as_str(),
                    None => ron.cmd.as_str(),
                };
                let mut joined = cat(base, " ");
                match &o.args {
                    Some(a) => joined.append(a.as_str()),
                    None => {},
                }
                let line = trim_text(joined.as_str());
                let desc = match &o.desc {
                    Some(d) => d.clone(),
                    None => String::from_str("optional"),
                };
                let e = AppEntry { name: to_title(o.name.as_str()), desc, cmd: line };
                assert(e@ == static_entry(*ron, opts@[i as int]));
                out.push(e);
                i += 1;
            }
            assert(entries_view(out@) =~= static_entries_spec(*ron));
        },
    }
    out
}

/// The catalogue entry for the document `name` holding `ron`, given what
/// was read for each profile directory: the entries of each scan in order,
/// then the declared entries. Fails when a scan meets a match without
/// group 1.
pub fn build_app_config(name: String, ron: Ron, scans: &Vec<ScanInput>) -> (r: Result<
    AppConfig,
    LoadError,
>)
    ensures
        match r {
            Ok(a) => built_from(a, name, ron, scans@),
            Err(e) => e is MissingCaptureGroup && scans_spec(ron, scans@) is None,
        },
{
    let mut entries: Vec<AppEntry> = Vec::new();
    let mut i: usize = 0;
    while i < scans.len()
        invariant
            i <= scans@.len(),
            scans_spec(ron, scans@.take(i as int)) == Some(entries_view(entries@)),
        decreases scans@.len() - i,
    {
        proof {
            assert(scans@.take(i + 1).drop_last() =~= scans@.take(i as int));
            assert(scans@.take(i + 1).last() == scans@[i as int]);
        }
        let found = match &scans[i] {
            ScanInput::Contents { text } => content_entries(&ron, text.as_str()),
            ScanInput::Listing { dir, names } => listing_entries(&ron, dir.as_str(), names),
        };
        match found {
            Err(e) => {
                proof {
                    lemma_scans_fail(ron, scans@, i + 1);
                }
                return Err(e);
            },
            Ok(mut more) => {
                let ghost before = entries_view(entries@);
                let ghost added = entries_view(more@);
                entries.append(&mut more);
                assert(entries_view(entries@) =~= before + added);
            },
        }
        i += 1;
    }
    assert(scans@.take(i as int) =~= scans@);
    let mut declared = static_entries(&ron);
    let ghost before = entries_view(entries@);
    entries.append(&mut declared);
    assert(entries_view(entries@) =~= before + static_entries_spec(ron));
    Ok(AppConfig { name, conf: ron, entries })
}

/// Building twice from the same document and the same directory contents
/// gives the same catalogue entry, with the same entries in the same order.
pub proof fn lemma_rebuild_same(
    a: AppConfig,
    b: AppConfig,
    name: String,
    ron: Ron,
    ss: Seq<ScanInput>,
)
    requires
        built_from(a, name, ron, ss),
        built_from(b, name, ron, ss),
    ensures
        a.name == b.name,
        a.conf == b.conf,
        entries_view(a.entries@) == entries_view(b.entries@),
{
}

proof fn lemma_content_gap(ron: Ron, caps: Seq<(Seq<char>, Option<Seq<char>>)>, j: int)
    requires
        0 <= j < caps.len(),
        caps[j].1 is None,
    ensures
        content_entries_spec(ron, caps) is None,
{
    assert(caps.take(j + 1).drop_last() =~= caps.take(j));
    assert(caps.take(j + 1).last() == caps[j]);
    lemma_content_fails(ron, caps, j + 1);
}

/// A match without group 1 in the text of any profile file makes the
/// whole build fail: no entry is produced.
pub proof fn lemma_missing_group_fails(ron: Ron, ss: Seq<ScanInput>, i: int, j: int)
    requires
        0 <= i < ss.len(),
        ss[i] matches ScanInput::Contents { text } && 0 <= j < regex_captures(
            ron.profile_regex@,
            text@,
        ).len() && regex_captures(ron.profile_regex@, text@)[j].1 is None,
    ensures
        scans_spec(ron, ss) is None,
{
    if let ScanInput::Contents { text } = ss[i] {
        lemma_content_gap(ron, regex_captures(ron.profile_regex@, text@), j);
    }
    assert(ss.take(i + 1).drop_last() =~= ss.take(i));
    assert(ss.take(i + 1).last() == ss[i]);
    lemma_scans_fail(ron, ss, i + 1);
}

} // verus!
