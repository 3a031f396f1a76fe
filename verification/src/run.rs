//! The whole workflow in sequence: resolve the shortlink, fetch the
//! content, run the Before actions, deploy with the swap engine, run the
//! After actions — with prompting, the file system and git injected as
//! collaborators.

use vstd::prelude::*;
use crate::actions::{ActionRunner, Reply, spec_reply_text};
use crate::config::{Config, spec_keyed_find};
use crate::content::{Coordinate, Deployer, OverwritePrompt};
use crate::data::{CopyMode, Opts};
use crate::errors::Error;
use crate::fetch::Fetcher;
use crate::fsio::FsIo;
use crate::git::GitProvider;
use crate::shortlink::Shortlink;
use crate::txt;
use crate::varbag::VarBag;

verus! {

/// Scripted answers for a whole run: the wizard's own questions, and the
/// actions' interactions.
#[derive(Debug, Clone)]
pub struct RunnerEvents {
    pub prompt_events: Option<Vec<Reply>>,
    pub actions_events: Option<Vec<Reply>>,
}

/// The operator-facing wizard around a run: filling in a missing
/// shortlink or destination, and the final confirmation.
pub trait RunnerPrompt {
    /// Completes missing arguments; the third part says whether the run
    /// still needs a confirmation.
    fn fill_missing(&mut self, shortlink: Option<&String>, dest: Option<&String>) -> Result<
        (String, Option<String>, bool),
        Error,
    >;

    /// The final go-ahead.
    fn are_you_sure(&mut self, text: &String) -> Result<bool, Error>;
}

/// The destination a run uses before prompting: the given one, or the
/// current folder when applying into an existing tree.
pub fn default_dest(dest: Option<&String>, mode: &CopyMode) -> (r: Option<String>)
    ensures
        match dest {
            Some(d) => r matches Some(s) && s@ == d@,
            None => if mode is Apply {
                r matches Some(s) && s@ == "."@
            } else {
                r is None
            },
        },
{
    match dest {
        Some(d) => Some((*d).clone()),
        None => {
            if matches!(mode, CopyMode::Apply) {
                let mut dot = String::new();
                dot.append(".");
                Some(dot)
            } else {
                None
            }
        },
    }
}

/// A runner with actions replayed from synthetic events when any are
/// given, and live prompting otherwise.
pub fn build_runner(events: Option<&RunnerEvents>) -> (r: ActionRunner)
    ensures
        match events {
            Some(e) => match e.actions_events {
                Some(evs) => r.scripted() matches Some(s) && s.1 == 0 && s.0.len() == evs@.len()
                    && (forall|k: int|
                    0 <= k < evs@.len() ==> spec_reply_text(#[trigger] s.0[k]) == spec_reply_text(
                        evs@[k],
                    )),
                None => r.scripted() is None,
            },
            None => r.scripted() is None,
        },
{
    match events {
        Some(e) => match &e.actions_events {
            Some(evs) => {
                let mut copy: Vec<Reply> = Vec::new();
                let mut i: usize = 0;
                while i < evs.len()
                    invariant
                        i <= evs@.len(),
                        copy@.len() == i,
                        forall|k: int|
                            0 <= k < i ==> spec_reply_text(#[trigger] copy@[k]) == spec_reply_text(
                                evs@[k],
                            ),
                    decreases evs@.len() - i,
                {
                    copy.push(clone_reply_value(&evs[i]));
                    i = i + 1;
                }
                ActionRunner::with_events(copy)
            },
            None => ActionRunner::default(),
        },
        None => ActionRunner::default(),
    }
}

fn clone_reply_value(r: &Reply) -> (out: Reply)
    ensures
        spec_reply_text(out) == spec_reply_text(*r),
{
    match r {
        Reply::Bool(b) => Reply::Bool(*b),
        Reply::Text(s) => Reply::Text(s.clone()),
        Reply::Cancelled => Reply::Cancelled,
    }
}

/// What a completed run reports: every file copied or rendered, and the
/// After-action results when any actions were configured.
#[derive(Debug)]
pub struct RunReport {
    pub files: Vec<crate::swap::CopyResult>,
    pub actions: Option<Vec<crate::actions::ActionResult>>,
}

/// One full run of the pipeline against injected collaborators.
pub struct Runner<'a, G: GitProvider> {
    pub git: &'a G,
    pub config: &'a Config,
    pub cache_dir: &'a String,
}

impl<'a, G: GitProvider> Runner<'a, G> {
    pub fn new(git: &'a G, config: &'a Config, cache_dir: &'a String) -> (r: Runner<'a, G>)
        ensures
            r.config == config,
            r.cache_dir == cache_dir,
    {
        Runner { git, config, cache_dir }
    }

    /// Runs the workflow with live prompting. The report of a completed
    /// run is returned; a declined confirmation ends the run early with
    /// no report.
    pub fn run<F: FsIo, P: RunnerPrompt + OverwritePrompt>(
        &self,
        shortlink: Option<&String>,
        dest: Option<&String>,
        opts: &Opts,
        fs: &mut F,
        prompt: &mut P,
    ) -> (r: Result<Option<RunReport>, Error>)
        ensures
            r matches Ok(o) ==> (o is None ==> !opts.always_yes),
    {
        self.run_workflow(shortlink, dest, opts, fs, prompt, None)
    }

    /// Runs the workflow with synthetic events replayed for the actions.
    pub fn run_with_events<F: FsIo, P: RunnerPrompt + OverwritePrompt>(
        &self,
        shortlink: Option<&String>,
        dest: Option<&String>,
        opts: &Opts,
        fs: &mut F,
        prompt: &mut P,
        events: &RunnerEvents,
    ) -> (r: Result<Option<RunReport>, Error>)
        ensures
            r matches Ok(o) ==> (o is None ==> !opts.always_yes),
    {
        self.run_workflow(shortlink, dest, opts, fs, prompt, Some(events))
    }

    /// Fills in the missing arguments through the wizard, then runs the
    /// resolved pipeline. What the wizard answers is its own; everything
    /// after it is contracted on `run_resolved`.
    fn run_workflow<F: FsIo, P: RunnerPrompt + OverwritePrompt>(
        &self,
        shortlink: Option<&String>,
        dest: Option<&String>,
        opts: &Opts,
        fs: &mut F,
        prompt: &mut P,
        events: Option<&RunnerEvents>,
    ) -> (r: Result<Option<RunReport>, Error>)
        ensures
            r matches Ok(o) ==> (o is None ==> !opts.always_yes),
    {
        let dest0 = default_dest(dest, &opts.mode);
        let (link, dest1, should_confirm) = match prompt.fill_missing(shortlink, dest0.as_ref()) {
            Ok(t) => t,
            Err(e) => {
                return Err(e);
            },
        };
        self.run_resolved(&link, dest1.as_ref(), should_confirm, opts, fs, prompt, events)
    }

    /// The pipeline in order once the arguments stand: resolve the link,
    /// fetch the content, compute the coordinates, confirm unless waived,
    /// then deploy with the Before and After actions around the copy.
    /// An early end without a report comes only from a declined
    /// confirmation, which only arises when one is owed; a completed
    /// run reports After-action results exactly when the link names a
    /// configured project with actions. The location, assets, fetch,
    /// coordinates and deploy are each pinned by their own contracts.
    pub fn run_resolved<F: FsIo, P: RunnerPrompt + OverwritePrompt>(
        &self,
        link: &String,
        dest: Option<&String>,
        should_confirm: bool,
        opts: &Opts,
        fs: &mut F,
        prompt: &mut P,
        events: Option<&RunnerEvents>,
    ) -> (r: Result<Option<RunReport>, Error>)
        ensures
            r matches Ok(o) ==> (o is None ==> !opts.always_yes && should_confirm),
            r matches Ok(o) ==> (o matches Some(rep) ==> ((rep.actions is Some) == (
            match spec_keyed_find(self.config.projects@, link@) {
                Some(i) => self.config.projects@[i].1.actions is Some,
                None => false,
            }))),
    {
        let sl = Shortlink::new(self.config, self.git);
        let mut vars = VarBag::new();
        let (location, assets) = match sl.resolve(link, opts.is_git, fs) {
            Ok(p) => p,
            Err(e) => {
                return Err(e);
            },
        };
        let fetcher = Fetcher::new(self.git, self.cache_dir);
        let (source, remove_source) = match fetcher.fetch(&location, &assets, opts.no_cache) {
            Ok(p) => p,
            Err(e) => {
                return Err(e);
            },
        };
        let project_setup = sl.setup_actions(link);
        let action_runner = build_runner(events);
        let mut deployer = Deployer::new(action_runner);
        let coords = match Coordinate::new(&source, dest, &location, remove_source, fs) {
            Ok(c) => c,
            Err(e) => {
                return Err(e);
            },
        };
        if !opts.always_yes && should_confirm {
            let mut text = String::new();
            text.append("Generate from '");
            text.append(link.as_str());
            text.append("' into '");
            text.append(coords.to.as_str());
            text.append("'?");
            match prompt.are_you_sure(&text) {
                Ok(true) => {},
                Ok(false) => {
                    return Ok(None);
                },
                Err(e) => {
                    return Err(e);
                },
            }
        }
        match deployer.deploy(fs, coords, project_setup, &mut vars, opts, prompt) {
            Ok((files, actions)) => Ok(Some(RunReport { files, actions })),
            Err(e) => Err(e),
        }
    }
}

} // verus!
