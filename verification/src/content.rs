//! The deployer: computing copy coordinates, enforcing the fresh-copy
//! pre-check and the overwrite policy, and walking the source tree while
//! the swap engine renders paths and content.

use vstd::prelude::*;
use crate::actions::{ActionHook, ActionResult, ActionRunner};
use crate::config::ProjectSetupActions;
use crate::data::{CopyMode, Location, Opts, Overwrite};
use crate::errors::Error;
use crate::fsio::FsIo;
use crate::swap::{CopyResult, Swap, Swapper, spec_materialization_of};
use crate::txt;
use crate::txt::{spec_last_segment, spec_split_char, spec_starts_with, views_of};
use crate::urls::opt_view;
use crate::varbag::VarBag;

verus! {

/// Joining of two path strings: an absolute right side wins; otherwise a
/// single separator stands between the two.
pub open spec fn spec_path_join(a: Seq<char>, b: Seq<char>) -> Seq<char> {
    if b.len() > 0 && b[0] == '/' {
        b
    } else if a.len() > 0 && a[a.len() - 1] != '/' {
        a + "/"@ + b
    } else {
        a + b
    }
}

/// Joins two path strings.
pub fn path_join(a: &String, b: &String) -> (r: String)
    ensures
        r@ == spec_path_join(a@, b@),
{
    let av = txt::to_chars(a.as_str());
    let bv = txt::to_chars(b.as_str());
    if bv.len() > 0 && bv[0] == '/' {
        txt::chars_string(&bv)
    } else if av.len() > 0 && av[av.len() - 1] != '/' {
        let mut out = txt::dup(&av);
        let mut sep = txt::to_chars("/");
        let mut tail = txt::dup(&bv);
        out.append(&mut sep);
        out.append(&mut tail);
        txt::chars_string(&out)
    } else {
        let mut out = txt::dup(&av);
        let mut tail = txt::dup(&bv);
        out.append(&mut tail);
        txt::chars_string(&out)
    }
}

/// The on-disk copy coordinates of a run: the narrowed source, the final
/// destination, whether the source is a single file, and whether removal
/// of the source was requested.
#[derive(Debug, Clone)]
pub struct Coordinate {
    pub from: String,
    pub to: String,
    pub is_file: bool,
    pub remove_from: bool,
}

/// The narrowed source: the fetched root, joined with the location's
/// subfolder when one was named.
pub open spec fn spec_coord_from(source: Seq<char>, location: Location) -> Seq<char> {
    match opt_view(location.subfolder) {
        Some(sub) => spec_path_join(source, sub),
        None => source,
    }
}

/// The final destination: the explicit destination when one is given;
/// otherwise a single file keeps its subfolder structure or falls back to
/// its bare name, and a directory lands at the subfolder's name or in the
/// current folder.
pub open spec fn spec_coord_to(
    from: Seq<char>,
    dest: Option<Seq<char>>,
    location: Location,
    is_file: bool,
) -> Seq<char> {
    let fname = spec_last_segment(from, '/');
    match dest {
        Some(d) => d,
        None => match opt_view(location.subfolder) {
            Some(sub) => sub,
            None => if is_file {
                fname
            } else {
                "."@
            },
        },
    }
}

impl Coordinate {
    /// Calculates the copy coordinates, probing the disk for whether the
    /// narrowed source is a single file.
    pub fn new<F: FsIo>(
        source: &String,
        dest: Option<&String>,
        location: &Location,
        remove: bool,
        fs: &F,
    ) -> (r: Result<Coordinate, Error>)
        ensures
            r matches Ok(c) ==> ({
                let from = spec_coord_from(source@, *location);
                let dv = match dest {
                    Some(d) => Some(d@),
                    None => None,
                };
                &&& c.from@ == from
                &&& c.remove_from == remove
                &&& c.to@ == spec_coord_to(from, dv, *location, c.is_file)
            }),
    {
        let from = match &location.subfolder {
            Some(sub) => path_join(source, sub),
            None => source.clone(),
        };
        let is_file = fs.is_file(&from);
        Coordinate::from_parts(source, dest, location, remove, is_file)
    }

    /// Calculates the copy coordinates for a known source shape. Fails
    /// only when a single file's name is not derivable: the narrowed
    /// source ends in a separator.
    pub fn from_parts(
        source: &String,
        dest: Option<&String>,
        location: &Location,
        remove: bool,
        is_file: bool,
    ) -> (r: Result<Coordinate, Error>)
        ensures
            ({
                let from = spec_coord_from(source@, *location);
                let to = spec_coord_to(
                    from,
                    match dest {
                        Some(d) => Some(d@),
                        None => None,
                    },
                    *location,
                    is_file,
                );
                &&& (r is Err) == (is_file && spec_last_segment(from, '/').len() == 0)
                &&& (r matches Ok(c) ==> c.from@ == from && c.to@ == to && c.is_file == is_file
                    && c.remove_from == remove)
                &&& (r matches Err(e) ==> e is Resolution)
            }),
    {
        let from = match &location.subfolder {
            Some(sub) => path_join(source, sub),
            None => source.clone(),
        };
        let from_chars = txt::to_chars(from.as_str());
        let fname = last_segment(&from_chars);
        if is_file && fname.len() == 0 {
            let mut m = String::new();
            m.append("cannot get file name for ");
            m.append(from.as_str());
            return Err(Error::Resolution(m));
        }
        let to: String = match dest {
            Some(d) => (*d).clone(),
            None => match &location.subfolder {
                Some(sub) => sub.clone(),
                None => {
                    if is_file {
                        txt::chars_string(&fname)
                    } else {
                        let mut dot = String::new();
                        dot.append(".");
                        dot
                    }
                },
            },
        };
        Ok(Coordinate { from, to, is_file, remove_from: remove })
    }
}

/// Answers the per-file overwrite question during a deploy. A live
/// implementation asks the operator; tests script the answers.
pub trait OverwritePrompt {
    /// Whether an existing destination file may be overwritten.
    fn confirm_overwrite(&mut self, path: &String) -> Result<bool, Error>;
}

/// Paths with one of these as a component are never copied: version
/// control metadata and the local project configuration.
pub open spec fn spec_skipped_path(p: Seq<char>) -> bool {
    exists|k: int|
        0 <= k < spec_split_char(p, '/').len() && ((#[trigger] spec_split_char(p, '/')[k])
            == ".git"@ || spec_split_char(p, '/')[k] == ".backpack-project.yml"@)
}

/// Whether any path component is excluded from copying.
fn is_skipped_path(p: &Vec<char>) -> (r: bool)
    ensures
        r == spec_skipped_path(p@),
{
    let segs = txt::split_chars(p, '/');
    let git_name = txt::to_chars(".git");
    let conf_name = txt::to_chars(".backpack-project.yml");
    let mut k: usize = 0;
    proof {
        assert(views_of(segs@).len() == spec_split_char(p@, '/').len());
    }
    while k < segs.len()
        invariant
            k <= segs@.len(),
            views_of(segs@) == spec_split_char(p@, '/'),
            git_name@ == ".git"@,
            conf_name@ == ".backpack-project.yml"@,
            forall|j: int|
                0 <= j < k ==> (#[trigger] spec_split_char(p@, '/')[j]) != ".git"@
                    && spec_split_char(p@, '/')[j] != ".backpack-project.yml"@,
        decreases segs@.len() - k,
    {
        proof {
            assert(views_of(segs@)[k as int] == segs@[k as int]@);
        }
        if txt::vec_eq(&segs[k], &git_name) || txt::vec_eq(&segs[k], &conf_name) {
            return true;
        }
        k = k + 1;
    }
    false
}

/// The path under the walk root: the root prefix and its separator
/// removed.
fn strip_root(p: &Vec<char>, root: &Vec<char>) -> (r: Option<Vec<char>>)
    ensures
        r matches Some(rel) ==> txt::spec_starts_with(p@, root@) && rel@
            == txt::spec_trim_start_char(p@.skip(root@.len() as int), '/'),
        r is None ==> !txt::spec_starts_with(p@, root@),
{
    if !txt::starts_with(p, root) {
        return None;
    }
    let mut rest: Vec<char> = Vec::new();
    let mut i: usize = root.len();
    while i < p.len()
        invariant
            root@.len() <= i <= p@.len(),
            rest@ == p@.subrange(root@.len() as int, i as int),
        decreases p@.len() - i,
    {
        rest.push(p[i]);
        proof {
            assert(p@.subrange(root@.len() as int, i + 1 as int) =~= p@.subrange(
                root@.len() as int,
                i as int,
            ).push(p@[i as int]));
        }
        i = i + 1;
    }
    proof {
        assert(rest@ =~= p@.skip(root@.len() as int));
    }
    Some(txt::trim_start_char(&rest, '/'))
}

/// Drives the copy step: the Before actions, the swap engine over every
/// file of the source tree under the overwrite policy, then the After
/// actions, with the variable bag shared throughout.
pub struct Deployer {
    pub action_runner: ActionRunner,
}

impl Deployer {
    pub fn new(action_runner: ActionRunner) -> (r: Deployer)
        ensures
            r.action_runner == action_runner,
    {
        Deployer { action_runner }
    }

    /// One run of the deployer. In fresh-copy mode a pre-existing
    /// destination aborts the run before anything is written.
    pub fn deploy<F: FsIo, C: OverwritePrompt>(
        &mut self,
        fs: &mut F,
        coord: Coordinate,
        project_setup: Option<ProjectSetupActions>,
        vars: &mut VarBag,
        opts: &Opts,
        prompt: &mut C,
    ) -> (r: Result<(Vec<CopyResult>, Option<Vec<ActionResult>>), Error>)
        requires
            old(vars).wf(),
        ensures
            final(vars).wf(),
            r matches Err(e) ==> (e is DeployConflict ==> opts.mode is Copy),
            r matches Ok(p) ==> ((p.1 is Some) == (match project_setup {
                Some(setup) => setup.actions is Some,
                None => false,
            })),
            r matches Ok(p) ==> (coord.is_file ==> p.0@.len() == 1),
    {
        let dest_exists = fs.path_exists(&coord.to);
        self.deploy_checked(fs, dest_exists, coord, project_setup, vars, opts, prompt)
    }

    /// The deploy once the destination probe is in hand: a fresh-copy run
    /// whose destination already exists fails with a deploy conflict, and
    /// nothing is copied.
    pub fn deploy_checked<F: FsIo, C: OverwritePrompt>(
        &mut self,
        fs: &mut F,
        dest_exists: bool,
        coord: Coordinate,
        project_setup: Option<ProjectSetupActions>,
        vars: &mut VarBag,
        opts: &Opts,
        prompt: &mut C,
    ) -> (r: Result<(Vec<CopyResult>, Option<Vec<ActionResult>>), Error>)
        requires
            old(vars).wf(),
        ensures
            final(vars).wf(),
            opts.mode is Copy && dest_exists ==> (r matches Err(e) && e is DeployConflict),
            r matches Err(e) ==> (e is DeployConflict ==> opts.mode is Copy && dest_exists),
            r matches Ok(p) ==> ((p.1 is Some) == (match project_setup {
                Some(setup) => setup.actions is Some,
                None => false,
            })),
            r matches Ok(p) ==> (coord.is_file ==> p.0@.len() == 1),
            r matches Ok(p) ==> (!coord.is_file ==> exists|ms: Seq<Swap>|
                #![trigger spec_materialization_of(ms, spec_setup_swaps(project_setup))]
                spec_materialization_of(ms, spec_setup_swaps(project_setup)) && (forall|k: int|
                    0 <= k < p.0@.len() ==> spec_walk_dest(
                        (#[trigger] p.0@[k].dest)@,
                        coord.from@,
                        coord.to@,
                        ms,
                    ))),
    {
        if matches!(&opts.mode, CopyMode::Copy) && dest_exists {
            let mut m = String::new();
            m.append("destination already exists: ");
            m.append(coord.to.as_str());
            return Err(Error::DeployConflict(m));
        }
        let actions_dest: String = if coord.is_file {
            match crate::swap::parent_of(&coord.to) {
                Some(parent) => {
                    if parent.as_str().is_empty() {
                        let mut dot = String::new();
                        dot.append(".");
                        dot
                    } else {
                        parent
                    }
                },
                None => {
                    let mut dot = String::new();
                    dot.append(".");
                    dot
                },
            }
        } else {
            coord.to.clone()
        };
        let (actions, swaps) = match &project_setup {
            Some(p) => (&p.actions, &p.swaps),
            None => (&None, &None),
        };
        match actions {
            Some(list) => {
                match self.action_runner.run(
                    list,
                    Some(&actions_dest),
                    vars,
                    ActionHook::Before,
                ) {
                    Ok(_) => {},
                    Err(e) => {
                        return Err(e);
                    },
                }
            },
            None => {},
        }
        let swapper = match Swapper::with_vars(swaps.as_ref(), vars) {
            Ok(sw) => sw,
            Err(e) => {
                return Err(e);
            },
        };
        let overwrite = if opts.overwrite {
            Overwrite::Always
        } else {
            Overwrite::Ask
        };
        let files = match copy_tree(
            fs,
            &swapper,
            &coord.from,
            &coord.to,
            coord.is_file,
            &overwrite,
            prompt,
        ) {
            Ok(files) => files,
            Err(e) => {
                return Err(e);
            },
        };
        // removal of the source is accepted but intentionally not
        // performed
        let after_actions: Option<Vec<ActionResult>> = match actions {
            Some(list) => {
                match self.action_runner.run(list, Some(&actions_dest), vars, ActionHook::After) {
                    Ok(res) => Some(res),
                    Err(e) => {
                        return Err(e);
                    },
                }
            },
            None => None,
        };
        proof {
            if !coord.is_file {
                assert(spec_materialization_of(swapper.swaps@, spec_setup_swaps(project_setup)));
                assert(forall|k: int|
                    0 <= k < files@.len() ==> spec_walk_dest(
                        (#[trigger] files@[k].dest)@,
                        coord.from@,
                        coord.to@,
                        swapper.swaps@,
                    ));
            }
        }
        Ok((files, after_actions))
    }
}

/// The swap rules a project setup configures, or none.
pub open spec fn spec_setup_swaps(setup: Option<ProjectSetupActions>) -> Seq<Swap> {
    match setup {
        Some(ps) => match ps.swaps {
            Some(v) => v@,
            None => Seq::empty(),
        },
        None => Seq::empty(),
    }
}

/// The destination a walked file ends up at: the source-relative path
/// joined under the destination root, with every path rule applied.
pub open spec fn spec_dest_of(
    p: Seq<char>,
    source: Seq<char>,
    dest: Seq<char>,
    swaps: Seq<Swap>,
) -> Seq<char> {
    let rel = crate::txt::spec_trim_start_char(p.skip(source.len() as int), '/');
    let to = spec_path_join(dest, rel);
    crate::swap::spec_path_swaps(swaps, to, to)
}

/// The destinations of the files a walk keeps, in walk order: every file
/// without a skipped component, at its swapped joined destination.
pub open spec fn spec_kept_dests(
    files: Seq<String>,
    source: Seq<char>,
    dest: Seq<char>,
    swaps: Seq<Swap>,
) -> Seq<Seq<char>>
    decreases files.len(),
{
    if files.len() == 0 {
        Seq::empty()
    } else {
        let rest = spec_kept_dests(files.skip(1), source, dest, swaps);
        if spec_skipped_path(files[0]@) {
            rest
        } else {
            seq![spec_dest_of(files[0]@, source, dest, swaps)] + rest
        }
    }
}

/// The destinations a result list records.
pub open spec fn dests_of(results: Seq<CopyResult>) -> Seq<Seq<char>> {
    results.map_values(|r: CopyResult| r.dest@)
}

/// The destination `d` belongs to one of the walked files that the skip
/// rule keeps.
pub open spec fn spec_dest_from_kept(
    d: Seq<char>,
    files: Seq<String>,
    source: Seq<char>,
    dest: Seq<char>,
    swaps: Seq<Swap>,
) -> bool {
    exists|j: int|
        0 <= j < files.len() && !spec_skipped_path(#[trigger] files[j]@) && d == spec_dest_of(
            files[j]@,
            source,
            dest,
            swaps,
        )
}

/// The destination `d` is the swapped joined image of some kept source
/// path under the root.
pub open spec fn spec_walk_dest(
    d: Seq<char>,
    source: Seq<char>,
    dest: Seq<char>,
    swaps: Seq<Swap>,
) -> bool {
    exists|p: Seq<char>|
        !spec_skipped_path(p) && spec_starts_with(p, source) && d == #[trigger] spec_dest_of(
            p,
            source,
            dest,
            swaps,
        )
}

/// The kept-destination list grows at position `i` exactly when the file
/// there has no skipped component.
proof fn lemma_kept_take_step(
    files: Seq<String>,
    i: int,
    source: Seq<char>,
    dest: Seq<char>,
    swaps: Seq<Swap>,
)
    requires
        0 <= i < files.len(),
    ensures
        spec_kept_dests(files.take(i + 1), source, dest, swaps) == if spec_skipped_path(
            files[i]@,
        ) {
            spec_kept_dests(files.take(i), source, dest, swaps)
        } else {
            spec_kept_dests(files.take(i), source, dest, swaps).push(
                spec_dest_of(files[i]@, source, dest, swaps),
            )
        },
    decreases i,
{
    if i == 0 {
        assert(files.take(1) =~= seq![files[0]]);
        assert(files.take(1).skip(1) =~= files.take(0));
        assert(spec_kept_dests(files.take(0), source, dest, swaps) =~= Seq::<Seq<char>>::empty());
        if !spec_skipped_path(files[0]@) {
            assert(spec_kept_dests(files.take(1), source, dest, swaps) =~= spec_kept_dests(
                files.take(0),
                source,
                dest,
                swaps,
            ).push(spec_dest_of(files[0]@, source, dest, swaps)));
        }
    } else {
        lemma_kept_take_step(files.skip(1), i - 1, source, dest, swaps);
        assert(files.take(i + 1).skip(1) =~= files.skip(1).take(i));
        assert(files.take(i).skip(1) =~= files.skip(1).take(i - 1));
        assert(files.skip(1)[i - 1] == files[i]);
        assert(files.take(i + 1)[0] == files[0]);
        assert(files.take(i)[0] == files[0]);
        if !spec_skipped_path(files[0]@) {
            if !spec_skipped_path(files[i]@) {
                assert(seq![spec_dest_of(files.take(i + 1)[0]@, source, dest, swaps)]
                    + spec_kept_dests(files.skip(1).take(i - 1), source, dest, swaps).push(
                    spec_dest_of(files[i]@, source, dest, swaps),
                ) =~= (seq![spec_dest_of(files.take(i)[0]@, source, dest, swaps)]
                    + spec_kept_dests(files.skip(1).take(i - 1), source, dest, swaps)).push(
                    spec_dest_of(files[i]@, source, dest, swaps),
                ));
            }
        }
    }
}

/// Copies the walked files: every file with a `.git` or
/// `.backpack-project.yml` component is skipped; each other file lands at
/// its source-relative path joined under the destination, with the path
/// rules applied; an existing target is consulted per the overwrite
/// policy (`Always` copies, `Ask` asks per file and skips on decline,
/// `Never` skips). Every recorded destination belongs to a kept file, and
/// under `Always` the records are exactly the kept files, in walk order.
pub fn copy_files<F: FsIo, C: OverwritePrompt>(
    fs: &mut F,
    swapper: &Swapper,
    files: &Vec<String>,
    source: &String,
    dest: &String,
    overwrite: &Overwrite,
    prompt: &mut C,
) -> (r: Result<Vec<CopyResult>, Error>)
    ensures
        r matches Err(e) ==> e is Io,
        r matches Ok(results) ==> (forall|k: int|
            0 <= k < results@.len() ==> spec_dest_from_kept(
                (#[trigger] results@[k].dest)@,
                files@,
                source@,
                dest@,
                swapper.swaps@,
            )),
        overwrite is Always ==> (r matches Ok(results) ==> dests_of(results@) == spec_kept_dests(
            files@,
            source@,
            dest@,
            swapper.swaps@,
        )),
        r is Ok ==> (forall|j: int|
            0 <= j < files@.len() && !spec_skipped_path((#[trigger] files@[j])@)
                ==> spec_starts_with(files@[j]@, source@)),
{
    let source_chars = txt::to_chars(source.as_str());
    let mut copied: Vec<CopyResult> = Vec::new();
    let mut i: usize = 0;
    proof {
        assert(dests_of(copied@) =~= spec_kept_dests(
            files@.take(0),
            source@,
            dest@,
            swapper.swaps@,
        ));
    }
    while i < files.len()
        invariant
            i <= files@.len(),
            source_chars@ == source@,
            overwrite is Always ==> dests_of(copied@) == spec_kept_dests(
                files@.take(i as int),
                source@,
                dest@,
                swapper.swaps@,
            ),
            forall|k: int|
                0 <= k < copied@.len() ==> spec_dest_from_kept(
                    (#[trigger] copied@[k].dest)@,
                    files@,
                    source@,
                    dest@,
                    swapper.swaps@,
                ),
            forall|j: int|
                0 <= j < i && !spec_skipped_path((#[trigger] files@[j])@) ==> spec_starts_with(
                    files@[j]@,
                    source@,
                ),
        decreases files@.len() - i,
    {
        let ghost pre_dests = dests_of(copied@);
        proof {
            lemma_kept_take_step(files@, i as int, source@, dest@, swapper.swaps@);
        }
        let path = &files[i];
        let path_chars = txt::to_chars(path.as_str());
        if !is_skipped_path(&path_chars) {
            let rel = match strip_root(&path_chars, &source_chars) {
                Some(rel) => rel,
                None => {
                    let mut m = String::new();
                    m.append("walked file is not under the source root: ");
                    m.append(path.as_str());
                    return Err(Error::Io(m));
                },
            };
            let to = path_join(dest, &txt::chars_string(&rel));
            proof {
                assert(to@ == spec_path_join(
                    dest@,
                    crate::txt::spec_trim_start_char(files@[i as int]@.skip(source@.len() as int), '/'),
                ));
            }
            let should_copy: bool = if swapper.target_exists(fs, &to) {
                match overwrite {
                    Overwrite::Always => true,
                    Overwrite::Ask => {
                        let swapped = swapper.path(&to);
                        match prompt.confirm_overwrite(&swapped) {
                            Ok(yes) => yes,
                            Err(_) => false,
                        }
                    },
                    Overwrite::Never => false,
                }
            } else {
                true
            };
            if should_copy {
                match swapper.copy_to(fs, path, &to) {
                    Ok(res) => {
                        proof {
                            assert(res.dest@ == spec_dest_of(
                                files@[i as int]@,
                                source@,
                                dest@,
                                swapper.swaps@,
                            ));
                        }
                        copied.push(res);
                        proof {
                            assert(dests_of(copied@) =~= pre_dests.push(res.dest@));
                        }
                    },
                    Err(e) => {
                        return Err(e);
                    },
                }
            }
        }
        i = i + 1;
    }
    proof {
        assert(files@.take(files@.len() as int) =~= files@);
    }
    Ok(copied)
}

/// Copies one file, or every regular file under the source root, skipping
/// version-control metadata and the local project configuration, asking
/// per existing file under the `Ask` policy. Which files exist is the
/// walk collaborator's answer; `copy_files` states the outcome exactly
/// for every value of it.
fn copy_tree<F: FsIo, C: OverwritePrompt>(
    fs: &mut F,
    swapper: &Swapper,
    source: &String,
    dest: &String,
    is_file: bool,
    overwrite: &Overwrite,
    prompt: &mut C,
) -> (r: Result<Vec<CopyResult>, Error>)
    ensures
        r matches Ok(results) ==> (is_file ==> results@.len() == 1 && results@[0].dest@
            == crate::swap::spec_path_swaps(swapper.swaps@, dest@, dest@)),
        r matches Ok(results) ==> (!is_file ==> forall|k: int|
            0 <= k < results@.len() ==> spec_walk_dest(
                (#[trigger] results@[k].dest)@,
                source@,
                dest@,
                swapper.swaps@,
            )),
        r matches Err(e) ==> e is Io,
{
    if is_file {
        let mut copied: Vec<CopyResult> = Vec::new();
        match swapper.copy_to(fs, source, dest) {
            Ok(res) => {
                copied.push(res);
                return Ok(copied);
            },
            Err(e) => {
                return Err(e);
            },
        }
    }
    let files = match fs.walk_files(source) {
        Ok(files) => files,
        Err(m) => {
            return Err(Error::Io(m));
        },
    };
    let r = copy_files(fs, swapper, &files, source, dest, overwrite, prompt);
    proof {
        match &r {
            Ok(results) => {
                assert forall|k: int| 0 <= k < results@.len() implies spec_walk_dest(
                    (#[trigger] results@[k].dest)@,
                    source@,
                    dest@,
                    swapper.swaps@,
                ) by {
                    let j = choose|j: int|
                        0 <= j < files@.len() && !spec_skipped_path(#[trigger] files@[j]@)
                            && results@[k].dest@ == spec_dest_of(
                            files@[j]@,
                            source@,
                            dest@,
                            swapper.swaps@,
                        );
                    assert(spec_starts_with(files@[j]@, source@));
                    assert(results@[k].dest@ == spec_dest_of(
                        files@[j]@,
                        source@,
                        dest@,
                        swapper.swaps@,
                    ));
                }
            },
            Err(_) => {},
        }
    }
    r
}

/// The last `/`-separated segment of a path.
/// The last `/`-separated segment of a path.
fn last_segment(t: &Vec<char>) -> (r: Vec<char>)
    ensures
        r@ == spec_last_segment(t@, '/'),
{
    let segs = txt::split_chars(t, '/');
    proof {
        assert(views_of(segs@).len() >= 1) by {
            txt::lemma_split_char_nonempty(t@, '/');
        }
        assert(views_of(segs@)[views_of(segs@).len() - 1] == segs@[segs@.len() - 1]@);
    }
    txt::dup(&segs[segs.len() - 1])
}

/// Guesses a fresh destination name for a new project: the first
/// `my-projectN` (N from 1 up to 99) that does not exist yet.
pub fn guess_dest<F: FsIo>(fs: &F) -> (r: Result<String, Error>)
    ensures
        r matches Ok(s) ==> exists|i: nat|
            1 <= i < 99 && s@ == "my-project"@ + #[trigger] crate::actions::spec_nat_decimal(i),
{
    let mut idx: u64 = 1;
    while idx < 99
        invariant
            1 <= idx <= 99,
        decreases 99 - idx,
    {
        let mut name_chars = txt::to_chars("my-project");
        let mut digits = crate::actions::u64_decimal(idx);
        name_chars.append(&mut digits);
        let name = txt::chars_string(&name_chars);
        if !fs.path_exists(&name) {
            proof {
                assert(name@ == "my-project"@ + crate::actions::spec_nat_decimal(idx as nat));
            }
            return Ok(name);
        }
        idx = idx + 1;
    }
    let mut m = String::new();
    m.append("too many apps generated, pick a custom app name?");
    Err(Error::Io(m))
}

} // verus!
