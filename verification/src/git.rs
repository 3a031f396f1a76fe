//! The git collaborator boundary and the ref-selection logic: picking a
//! named ref, or deriving the default branch from a remote's ref list.

use vstd::prelude::*;
use crate::data::Location;
use crate::errors::Error;
use crate::txt;
use crate::txt::{spec_ends_with, first_match_from, spec_split_char, views_of};

verus! {

/// One entry of a remote's ref list: a revision and the ref name that
/// points at it.
#[derive(Debug, Clone, PartialEq, Eq, Hash)]
pub struct RemoteInfo {
    pub revision: String,
    pub ref_: String,
}

/// The git transport collaborator: cloning and remote listing. Nothing is
/// assumed of outcomes; the callers state what holds whatever comes back.
pub trait GitProvider {
    /// Performs a shallow git clone of the location into `out`.
    fn shallow_clone(&self, location: &Location, out: &String) -> Result<(), Error>;

    /// Lists the remote's refs.
    fn ls_remote(&self, location: &Location) -> Result<Vec<RemoteInfo>, Error>;

    /// The ref the location names, or the remote's default branch.
    fn get_ref_or_default(&self, location: &Location) -> Result<RemoteInfo, Error>;

    /// The current repository's own remote URL.
    fn get_local_url(&self) -> Result<String, Error>;
}

/// First entry whose ref name ends with the wanted name.
pub open spec fn spec_first_suffix(refs: Seq<RemoteInfo>, g: Seq<char>) -> Option<int>
    decreases refs.len(),
{
    if refs.len() == 0 {
        None
    } else if spec_ends_with(refs[0].ref_@, g) {
        Some(0)
    } else {
        match spec_first_suffix(refs.skip(1), g) {
            Some(i) => Some(i + 1),
            None => None,
        }
    }
}

/// First entry named `HEAD`.
pub open spec fn spec_first_head(refs: Seq<RemoteInfo>) -> Option<int>
    decreases refs.len(),
{
    if refs.len() == 0 {
        None
    } else if refs[0].ref_@ == "HEAD"@ {
        Some(0)
    } else {
        match spec_first_head(refs.skip(1)) {
            Some(i) => Some(i + 1),
            None => None,
        }
    }
}

/// First entry other than `HEAD` that shares the given revision: the
/// default branch.
pub open spec fn spec_first_default(refs: Seq<RemoteInfo>, revision: Seq<char>) -> Option<int>
    decreases refs.len(),
{
    if refs.len() == 0 {
        None
    } else if refs[0].ref_@ != "HEAD"@ && refs[0].revision@ == revision {
        Some(0)
    } else {
        match spec_first_default(refs.skip(1), revision) {
            Some(i) => Some(i + 1),
            None => None,
        }
    }
}

/// Bounds and meaning of the three searches.
pub proof fn lemma_first_suffix_in_range(refs: Seq<RemoteInfo>, g: Seq<char>)
    requires
        spec_first_suffix(refs, g) is Some,
    ensures
        0 <= spec_first_suffix(refs, g)->Some_0 < refs.len(),
        spec_ends_with(refs[spec_first_suffix(refs, g)->Some_0].ref_@, g),
    decreases refs.len(),
{
    if refs.len() > 0 && !spec_ends_with(refs[0].ref_@, g) {
        lemma_first_suffix_in_range(refs.skip(1), g);
    }
}

pub proof fn lemma_first_head_in_range(refs: Seq<RemoteInfo>)
    requires
        spec_first_head(refs) is Some,
    ensures
        0 <= spec_first_head(refs)->Some_0 < refs.len(),
        refs[spec_first_head(refs)->Some_0].ref_@ == "HEAD"@,
    decreases refs.len(),
{
    if refs.len() > 0 && refs[0].ref_@ != "HEAD"@ {
        lemma_first_head_in_range(refs.skip(1));
    }
}

pub proof fn lemma_first_default_in_range(refs: Seq<RemoteInfo>, revision: Seq<char>)
    requires
        spec_first_default(refs, revision) is Some,
    ensures
        0 <= spec_first_default(refs, revision)->Some_0 < refs.len(),
    decreases refs.len(),
{
    if refs.len() > 0 && !(refs[0].ref_@ != "HEAD"@ && refs[0].revision@ == revision) {
        lemma_first_default_in_range(refs.skip(1), revision);
    }
}

/// The ref a fetch uses. With a wanted name, the first ref whose name
/// ends with it; without one, the first non-`HEAD` ref sharing `HEAD`'s
/// revision — the remote's default branch.
pub fn select_ref(refs: &Vec<RemoteInfo>, gref: &Option<String>) -> (r: Result<RemoteInfo, Error>)
    ensures
        match gref {
            Some(g) => match spec_first_suffix(refs@, g@) {
                Some(i) => r matches Ok(ri) && ri == refs@[i],
                None => r matches Err(e) && e is RemoteRef,
            },
            None => match spec_first_head(refs@) {
                None => r matches Err(e) && e is RemoteRef,
                Some(h) => match spec_first_default(refs@, refs@[h].revision@) {
                    Some(d) => r matches Ok(ri) && ri == refs@[d],
                    None => r matches Err(e) && e is RemoteRef,
                },
            },
        },
{
    proof {
        assert(refs@.skip(0) =~= refs@);
    }
    match gref {
        Some(g) => {
            let g_chars = txt::to_chars(g.as_str());
            match find_suffix(refs, &g_chars, 0) {
                Some(i) => Ok(clone_remote(&refs[i])),
                None => {
                    let mut m = String::new();
                    m.append("no such ref found: ");
                    m.append(g.as_str());
                    Err(Error::RemoteRef(m))
                },
            }
        },
        None => {
            match find_head(refs, 0) {
                None => {
                    let mut m = String::new();
                    m.append("no HEAD ref found");
                    Err(Error::RemoteRef(m))
                },
                Some(h) => {
                    let head_rev = txt::to_chars(refs[h].revision.as_str());
                    match find_default(refs, &head_rev, 0) {
                        Some(d) => Ok(clone_remote(&refs[d])),
                        None => {
                            let mut m = String::new();
                            m.append("no default branch found");
                            Err(Error::RemoteRef(m))
                        },
                    }
                },
            }
        },
    }
}

pub fn clone_remote(r: &RemoteInfo) -> (out: RemoteInfo)
    ensures
        out == *r,
{
    let out = RemoteInfo { revision: r.revision.clone(), ref_: r.ref_.clone() };
    proof {
        assert(out.revision == r.revision && out.ref_ == r.ref_);
    }
    out
}

fn find_suffix(refs: &Vec<RemoteInfo>, g: &Vec<char>, i: usize) -> (r: Option<usize>)
    requires
        i <= refs@.len(),
    ensures
        match r {
            Some(u) => i <= u < refs@.len() && spec_first_suffix(refs@.skip(i as int), g@) == Some(
                u - i,
            ),
            None => spec_first_suffix(refs@.skip(i as int), g@) is None,
        },
    decreases refs@.len() - i,
{
    proof {
        assert(refs@.skip(i as int).len() == refs@.len() - i);
    }
    if i == refs.len() {
        return None;
    }
    proof {
        assert(refs@.skip(i as int)[0] == refs@[i as int]);
        assert(refs@.skip(i as int).skip(1) =~= refs@.skip(i + 1));
    }
    let ref_chars = txt::to_chars(refs[i].ref_.as_str());
    if txt::ends_with(&ref_chars, g) {
        return Some(i);
    }
    find_suffix(refs, g, i + 1)
}

fn find_head(refs: &Vec<RemoteInfo>, i: usize) -> (r: Option<usize>)
    requires
        i <= refs@.len(),
    ensures
        match r {
            Some(u) => i <= u < refs@.len() && spec_first_head(refs@.skip(i as int)) == Some(
                u - i,
            ),
            None => spec_first_head(refs@.skip(i as int)) is None,
        },
    decreases refs@.len() - i,
{
    proof {
        assert(refs@.skip(i as int).len() == refs@.len() - i);
    }
    if i == refs.len() {
        return None;
    }
    proof {
        assert(refs@.skip(i as int)[0] == refs@[i as int]);
        assert(refs@.skip(i as int).skip(1) =~= refs@.skip(i + 1));
    }
    if txt::str_equal(refs[i].ref_.as_str(), "HEAD") {
        return Some(i);
    }
    find_head(refs, i + 1)
}

fn find_default(refs: &Vec<RemoteInfo>, revision: &Vec<char>, i: usize) -> (r: Option<usize>)
    requires
        i <= refs@.len(),
    ensures
        match r {
            Some(u) => i <= u < refs@.len() && spec_first_default(refs@.skip(i as int), revision@)
                == Some(u - i),
            None => spec_first_default(refs@.skip(i as int), revision@) is None,
        },
    decreases refs@.len() - i,
{
    proof {
        assert(refs@.skip(i as int).len() == refs@.len() - i);
    }
    if i == refs.len() {
        return None;
    }
    proof {
        assert(refs@.skip(i as int)[0] == refs@[i as int]);
        assert(refs@.skip(i as int).skip(1) =~= refs@.skip(i + 1));
    }
    let rev_chars = txt::to_chars(refs[i].revision.as_str());
    let is_head = txt::str_equal(refs[i].ref_.as_str(), "HEAD");
    if !is_head && txt::vec_eq(&rev_chars, revision) {
        return Some(i);
    }
    find_default(refs, revision, i + 1)
}

/// One line of ls-remote output: a revision, one tab, a ref name.
pub open spec fn spec_parse_remote_line(l: Seq<char>) -> Option<(Seq<char>, Seq<char>)> {
    match first_match_from(l, seq!['\t'], 0) {
        Some(i) => if first_match_from(l, seq!['\t'], i + 1) is Some {
            None
        } else {
            Some((l.take(i), l.skip(i + 1)))
        },
        None => None,
    }
}

/// All non-empty lines parsed in order; a single bad line spoils the lot.
pub open spec fn spec_parse_remote_lines(lines: Seq<Seq<char>>) -> Option<
    Seq<(Seq<char>, Seq<char>)>,
>
    decreases lines.len(),
{
    if lines.len() == 0 {
        Some(Seq::empty())
    } else if lines[0].len() == 0 {
        spec_parse_remote_lines(lines.skip(1))
    } else {
        match (spec_parse_remote_line(lines[0]), spec_parse_remote_lines(lines.skip(1))) {
            (Some(p), Some(rest)) => Some(seq![p] + rest),
            _ => None,
        }
    }
}

/// Parses the stdout of `git ls-remote`: one `<revision>\t<ref>` entry per
/// non-empty line.
pub fn parse_ls_remote(stdout: &String) -> (r: Result<Vec<RemoteInfo>, Error>)
    ensures
        match spec_parse_remote_lines(spec_split_char(stdout@, '\n')) {
            Some(entries) => r matches Ok(v) && v@.len() == entries.len() && (forall|k: int|
                0 <= k < entries.len() ==> (#[trigger] v@[k]).revision@ == entries[k].0
                    && v@[k].ref_@ == entries[k].1),
            None => r matches Err(e) && e is RemoteRef,
        },
{
    let chars = txt::to_chars(stdout.as_str());
    let lines = txt::split_chars(&chars, '\n');
    let tab = txt::to_chars("\t");
    proof {
        reveal_strlit("\t");
        assert(tab@ =~= seq!['\t']);
    }
    let ghost line_views = views_of(lines@);
    let mut out: Vec<RemoteInfo> = Vec::new();
    let mut j: usize = 0;
    proof {
        assert(line_views.skip(0) =~= line_views);
    }
    while j < lines.len()
        invariant
            j <= lines@.len(),
            views_of(lines@) == line_views,
            line_views == spec_split_char(stdout@, '\n'),
            tab@ == seq!['\t'],
            match spec_parse_remote_lines(line_views.skip(j as int)) {
                Some(rest) => spec_parse_remote_lines(line_views) matches Some(all) && all
                    == spec_entries_of(out@) + rest,
                None => spec_parse_remote_lines(line_views) is None,
            },
        decreases lines@.len() - j,
    {
        let line = &lines[j];
        let ghost pre_entries = spec_entries_of(out@);
        proof {
            assert(line_views.skip(j as int)[0] == line_views[j as int]);
            assert(line_views.skip(j as int).skip(1) =~= line_views.skip(j + 1));
            assert(line_views[j as int] == lines@[j as int]@);
        }
        if line.len() > 0 {
            match txt::find_from(line, &tab, 0) {
                None => {
                    proof {
                        assert(spec_parse_remote_lines(line_views.skip(j as int)) is None);
                    }
                    let mut m = String::new();
                    m.append("Output line contains no '\\t'");
                    return Err(Error::RemoteRef(m));
                },
                Some(t) => {
                    proof {
                        txt::lemma_first_match_is_match(line@, tab@, 0);
                    }
                    if t + 1 <= line.len() {
                        match txt::find_from(line, &tab, t + 1) {
                            Some(_) => {
                                proof {
                                    assert(spec_parse_remote_line(line_views[j as int]) is None);
                                    assert(spec_parse_remote_lines(
                                        line_views.skip(j as int),
                                    ) is None);
                                }
                                let mut m = String::new();
                                m.append("Output line contains more than one '\\t'");
                                return Err(Error::RemoteRef(m));
                            },
                            None => {},
                        }
                    }
                    let mut rev: Vec<char> = txt::dup(line);
                    rev.truncate(t);
                    let mut name: Vec<char> = Vec::new();
                    let mut p: usize = t + 1;
                    while p < line.len()
                        invariant
                            t + 1 <= p <= line@.len(),
                            name@ == line@.subrange(t + 1, p as int),
                        decreases line@.len() - p,
                    {
                        name.push(line[p]);
                        proof {
                            assert(line@.subrange(t + 1, p + 1 as int) =~= line@.subrange(
                                t + 1,
                                p as int,
                            ).push(line@[p as int]));
                        }
                        p = p + 1;
                    }
                    proof {
                        assert(rev@ =~= line@.take(t as int));
                        assert(name@ =~= line@.skip(t + 1));
                    }
                    out.push(
                        RemoteInfo {
                            revision: txt::chars_string(&rev),
                            ref_: txt::chars_string(&name),
                        },
                    );
                    proof {
                        assert(spec_entries_of(out@) =~= pre_entries + seq![
                            (line@.take(t as int), line@.skip(t + 1)),
                        ]);
                        assert(pre_entries + (seq![(line@.take(t as int), line@.skip(t + 1))]
                            + spec_parse_remote_lines(line_views.skip(j + 1))->Some_0) =~= (
                        pre_entries + seq![(line@.take(t as int), line@.skip(t + 1))])
                            + spec_parse_remote_lines(line_views.skip(j + 1))->Some_0);
                    }
                },
            }
        }
        j = j + 1;
    }
    proof {
        assert(line_views.skip(line_views.len() as int) =~= Seq::<Seq<char>>::empty());
        assert(spec_entries_of(out@) + Seq::<(Seq<char>, Seq<char>)>::empty() =~= spec_entries_of(
            out@,
        ));
    }
    Ok(out)
}

/// The parsed pairs a result list stands for.
pub open spec fn spec_entries_of(v: Seq<RemoteInfo>) -> Seq<(Seq<char>, Seq<char>)> {
    v.map_values(|ri: RemoteInfo| (ri.revision@, ri.ref_@))
}

/// The lines of a command's output, as the line iterator reads them:
/// split at every newline, the empty piece of a trailing newline dropped,
/// a carriage return stripped from each line's end.
pub open spec fn spec_output_lines(t: Seq<char>) -> Seq<Seq<char>> {
    let segs = spec_split_char(t, '\n');
    let kept = if segs.last().len() == 0 {
        segs.drop_last()
    } else {
        segs
    };
    kept.map_values(
        |l: Seq<char>|
            if l.len() > 0 && l[l.len() - 1] == '\r' {
                l.drop_last()
            } else {
                l
            },
    )
}

/// The single remote URL an output names: exactly one line, or an error
/// for none or for several.
pub fn single_remote_line(output: &String) -> (r: Result<String, Error>)
    ensures
        ({
            let lines = spec_output_lines(output@);
            &&& (r is Ok) == (lines.len() == 1)
            &&& (r matches Ok(u) ==> u@ == lines[0])
            &&& (r matches Err(e) ==> e is RemoteRef)
        }),
{
    let chars = txt::to_chars(output.as_str());
    let segs = txt::split_chars(&chars, '\n');
    proof {
        crate::txt::lemma_split_char_nonempty(output@, '\n');
        assert(views_of(segs@)[segs@.len() - 1] == segs@[segs@.len() - 1]@);
    }
    let kept_count: usize = if segs[segs.len() - 1].len() == 0 {
        segs.len() - 1
    } else {
        segs.len()
    };
    if kept_count == 0 {
        let mut m = String::new();
        m.append("no repo remote URL found");
        return Err(Error::RemoteRef(m));
    }
    if kept_count > 1 {
        let mut m = String::new();
        m.append("repo has more than one remote URL");
        return Err(Error::RemoteRef(m));
    }
    let mut line = txt::dup(&segs[0]);
    proof {
        assert(views_of(segs@)[0] == segs@[0]@);
    }
    if line.len() > 0 && line[line.len() - 1] == '\r' {
        line.pop();
        proof {
            assert(line@ =~= segs@[0]@.drop_last());
        }
    }
    proof {
        let lines = spec_output_lines(output@);
        let sv = views_of(segs@);
        let kept = if sv.last().len() == 0 {
            sv.drop_last()
        } else {
            sv
        };
        assert(kept.len() == kept_count);
        assert(kept[0] == sv[0]);
        assert(lines[0] == (if sv[0].len() > 0 && sv[0][sv[0].len() - 1] == '\r' {
            sv[0].drop_last()
        } else {
            sv[0]
        }));
    }
    Ok(txt::chars_string(&line))
}

/// The argument list of a shallow clone: depth one, the named ref when
/// one is set, the ssh-style remote, and the output directory.
pub fn clone_args(location: &Location, out: &String) -> (r: Vec<String>)
    ensures
        r@.len() == (if location.gref is Some {
            6int
        } else {
            4int
        }),
        r@[0]@ == "clone"@,
        r@[1]@ == "--depth=1"@,
        location.gref matches Some(b) ==> r@[2]@ == "-b"@ && r@[3]@ == b@,
        r@[r@.len() - 2]@ == "git@"@ + location.domain@ + ":"@
            + crate::txt::spec_trim_start_char(location.path@, '/') + ".git"@,
        r@[r@.len() - 1]@ == out@,
{
    let mut args: Vec<String> = Vec::new();
    let mut clone_word = String::new();
    clone_word.append("clone");
    args.push(clone_word);
    let mut depth = String::new();
    depth.append("--depth=1");
    args.push(depth);
    match &location.gref {
        Some(branch) => {
            let mut flag = String::new();
            flag.append("-b");
            args.push(flag);
            args.push(branch.clone());
        },
        None => {},
    }
    args.push(location.git_url());
    args.push(out.clone());
    args
}

} // verus!
