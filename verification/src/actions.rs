//! The interactive action runner: an ordered list of actions, split into a
//! Before and an After pass around the copy step. Each action may ask the
//! operator one question, record the answer in the variable bag, and run a
//! shell command rendered against the bag. A cancelled answer either stops
//! the whole run or skips the action's command.

use vstd::prelude::*;
use requestty::{Answer, Question};
use crate::errors::Error;
use crate::txt;
use crate::txt::spec_splice;
use crate::varbag::{VarBag, spec_insert_entry};

verus! {

/// When an action runs relative to the file-copy step.
#[derive(Debug, Clone, Copy, PartialEq, Eq, Structural)]
pub enum ActionHook {
    Before,
    After,
}

#[derive(Debug, Clone, PartialEq, Eq, Structural)]
pub enum InteractionKind {
    Confirm,
    Input,
    Select,
}

/// The mapped outcome of one interaction: an answer text, a cancellation,
/// or no interaction at all.
#[derive(Debug, Clone, PartialEq, Eq)]
pub enum Response {
    Text(String),
    Cancel,
    Absent,
}

/// What the prompt backend hands back for one question, before mapping:
/// a boolean from a confirm, a text from an input or a selection, or a
/// cancellation.
#[derive(Debug, Clone)]
pub enum Reply {
    Bool(bool),
    Text(String),
    Cancelled,
}

/// One question put to the operator; a `Text` answer is stored in the
/// variable bag under `out`, when set.
#[derive(Debug, Clone)]
pub struct Interaction {
    pub kind: InteractionKind,
    pub prompt: String,
    pub out: Option<String>,
    pub options: Option<Vec<String>>,
}

/// One step of the scripted sequence: an optional interaction, an
/// optional shell command, and its failure-handling switches.
#[derive(Debug, Clone)]
pub struct Action {
    pub name: String,
    pub interaction: Option<Interaction>,
    pub run: Option<String>,
    pub ignore_exit: bool,
    pub break_if_cancel: bool,
    pub capture: bool,
    pub hook: ActionHook,
}

#[derive(Debug, Clone, PartialEq, Eq)]
pub struct RunResult {
    pub script: String,
    pub code: i32,
    pub out: String,
    pub err: String,
}

#[derive(Debug, Clone)]
pub struct ActionResult {
    pub name: String,
    pub run: Option<RunResult>,
    pub response: Response,
}

/// The text a reply maps to: a text answer or a confirmed "true" map to
/// that text; a refusal or a cancellation map to nothing.
pub open spec fn spec_reply_text(reply: Reply) -> Option<Seq<char>> {
    match reply {
        Reply::Text(s) => Some(s@),
        Reply::Bool(b) => if b {
            Some("true"@)
        } else {
            None
        },
        Reply::Cancelled => None,
    }
}

impl Interaction {
    /// Records an answer in the bag under this interaction's output
    /// variable, when one is declared; otherwise leaves the bag alone.
    pub fn update_varbag(&self, input: &String, varbag: &mut VarBag)
        requires
            old(varbag).wf(),
        ensures
            final(varbag).wf(),
            match self.out {
                Some(out) => final(varbag)@ == old(varbag)@.insert(out@, input@)
                    && final(varbag).entries_view() == spec_insert_entry(
                    old(varbag).entries_view(),
                    out@,
                    input@,
                ),
                None => *final(varbag) == *old(varbag),
            },
    {
        match &self.out {
            Some(out) => {
                varbag.insert(out.clone(), input.clone());
            },
            None => {},
        }
    }

    /// Maps a raw reply to a response and stores a text answer in the
    /// bag: a text stays itself, a confirmation becomes "true", anything
    /// else cancels.
    pub fn play(&self, reply: Reply, varbag: &mut VarBag) -> (r: Response)
        requires
            old(varbag).wf(),
        ensures
            final(varbag).wf(),
            match spec_reply_text(reply) {
                Some(t) => (r matches Response::Text(x) && x@ == t) && (match self.out {
                    Some(out) => final(varbag)@ == old(varbag)@.insert(out@, t)
                        && final(varbag).entries_view() == spec_insert_entry(
                        old(varbag).entries_view(),
                        out@,
                        t,
                    ),
                    None => *final(varbag) == *old(varbag),
                }),
                None => r is Cancel && *final(varbag) == *old(varbag),
            },
    {
        match reply {
            Reply::Text(s) => {
                self.update_varbag(&s, varbag);
                Response::Text(s)
            },
            Reply::Bool(b) => {
                if b {
                    let mut t = String::new();
                    t.append("true");
                    self.update_varbag(&t, varbag);
                    Response::Text(t)
                } else {
                    Response::Cancel
                }
            },
            Reply::Cancelled => Response::Cancel,
        }
    }
}

/// The literal token a bag entry substitutes in a command:
/// `{{` then the name then `}}`.
pub open spec fn spec_braced(k: Seq<char>) -> Seq<char> {
    "{{"@ + k + "}}"@
}

/// Literal token substitution of every bag entry into a script, in
/// ascending key order; an unresolved token stays verbatim.
pub open spec fn spec_render_script(s: Seq<char>, entries: Seq<(Seq<char>, Seq<char>)>) -> Seq<
    char,
>
    decreases entries.len(),
{
    if entries.len() == 0 {
        s
    } else {
        spec_render_script(spec_splice(s, spec_braced(entries[0].0), entries[0].1), entries.skip(1))
    }
}

/// Renders a command against the bag: each `{{name}}` token becomes the
/// bag's value for `name`; tokens of unset names stay verbatim.
pub fn render_script(script: &String, varbag: &VarBag) -> (r: String)
    ensures
        r@ == spec_render_script(script@, varbag.entries_view()),
{
    let mut acc: Vec<char> = txt::to_chars(script.as_str());
    let mut i: usize = 0;
    let n = varbag.len();
    proof {
        assert(varbag.entries_view().skip(0) =~= varbag.entries_view());
    }
    while i < n
        invariant
            i <= n,
            n == varbag.entries_view().len(),
            spec_render_script(acc@, varbag.entries_view().skip(i as int)) == spec_render_script(
                script@,
                varbag.entries_view(),
            ),
        decreases n - i,
    {
        let (k, v) = varbag.entry_at(i);
        let mut pattern: Vec<char> = txt::to_chars("{{");
        let mut key_chars = txt::to_chars(k.as_str());
        let mut close = txt::to_chars("}}");
        pattern.append(&mut key_chars);
        pattern.append(&mut close);
        let val = txt::to_chars(v.as_str());
        proof {
            assert(pattern@ == spec_braced(varbag.entries_view()[i as int].0));
            assert(varbag.entries_view().skip(i as int)[0] == varbag.entries_view()[i as int]);
            assert(varbag.entries_view().skip(i as int).skip(1) =~= varbag.entries_view().skip(
                i + 1,
            ));
        }
        acc = txt::replace_all(&acc, &pattern, &val);
        i = i + 1;
    }
    proof {
        assert(varbag.entries_view().skip(n as int) =~= Seq::<(Seq<char>, Seq<char>)>::empty());
    }
    txt::chars_string(&acc)
}

/// Relies on run_script::run: executes the script in a shell in the given
/// working directory, piping output when `capture` is set and inheriting
/// the terminal otherwise. The outcome depends on the machine, so nothing
/// is promised of it.
#[verifier::external_body]
fn run_shell(script: &String, working_dir: Option<&String>, capture: bool) -> (r: Result<
    (i32, String, String),
    String,
>)
{
    let mut options = run_script::ScriptOptions::new();
    options.working_directory = working_dir.map(std::path::PathBuf::from);
    options.output_redirection = if capture {
        run_script::IoOptions::Pipe
    } else {
        run_script::IoOptions::Inherit
    };
    options.print_commands = true;
    run_script::run(script.as_str(), &vec![], &options).map_err(|e| e.to_string())
}

/// Relies on requestty::prompt_one: puts one question of the declared
/// kind to the operator and maps the answer; the reply depends on the
/// operator.
#[verifier::external_body]
fn ask_operator(kind: &InteractionKind, prompt: &String, options: &Option<Vec<String>>) -> (r:
    Result<Reply, String>)
{
    let opts = options.clone().unwrap_or_default();
    let m = prompt.clone();
    let q = match kind {
        InteractionKind::Input => Question::input("question").message(m).build(),
        InteractionKind::Select => Question::select("question").message(m).choices(opts).build(),
        InteractionKind::Confirm => Question::confirm("question").message(m).build(),
    };
    match requestty::prompt_one(q) {
        Ok(Answer::String(s)) => Ok(Reply::Text(s)),
        Ok(Answer::ListItem(it)) => Ok(Reply::Text(it.text)),
        Ok(Answer::Bool(b)) => Ok(Reply::Bool(b)),
        Ok(_) => Ok(Reply::Cancelled),
        Err(e) => Err(e.to_string()),
    }
}

/// The actions of one hook pass, in declaration order.
pub open spec fn spec_hook_actions(actions: Seq<Action>, hook: ActionHook) -> Seq<Action>
    decreases actions.len(),
{
    if actions.len() == 0 {
        actions
    } else if actions[0].hook == hook {
        seq![actions[0]] + spec_hook_actions(actions.skip(1), hook)
    } else {
        spec_hook_actions(actions.skip(1), hook)
    }
}

/// Whether a scripted pass over these actions stops the run before its
/// end: a cancelled answer on an action that breaks on cancel, or a
/// question with no scripted reply left. Command outcomes play no part.
pub open spec fn spec_scripted_abort(
    actions: Seq<Action>,
    hook: ActionHook,
    replies: Seq<Reply>,
    cur: int,
) -> bool
    decreases actions.len(),
{
    if actions.len() == 0 {
        false
    } else if actions[0].hook != hook {
        spec_scripted_abort(actions.skip(1), hook, replies, cur)
    } else {
        match actions[0].interaction {
            Some(_) => {
                if !(0 <= cur < replies.len()) {
                    true
                } else {
                    match spec_reply_text(replies[cur]) {
                        None => actions[0].break_if_cancel || spec_scripted_abort(
                            actions.skip(1),
                            hook,
                            replies,
                            cur + 1,
                        ),
                        Some(_) => spec_scripted_abort(actions.skip(1), hook, replies, cur + 1),
                    }
                }
            },
            None => spec_scripted_abort(actions.skip(1), hook, replies, cur),
        }
    }
}

/// One expected entry of a scripted pass: the action's name, how its
/// interaction went, and the command text it would run. Command outcomes
/// are the machine's and stay out.
pub struct TraceStep {
    pub name: Seq<char>,
    pub cancelled: bool,
    pub answer: Option<Seq<char>>,
    pub script: Option<Seq<char>>,
}

/// The command a step runs, rendered against the bag at that point.
pub open spec fn spec_script_of(run: Option<String>, es: Seq<(Seq<char>, Seq<char>)>) -> Option<
    Seq<char>,
> {
    match run {
        Some(sc) => Some(spec_render_script(sc@, es)),
        None => None,
    }
}

/// The full expected outcome of a scripted pass, or nothing when the pass
/// stops early: a cancelled answer that breaks, or a question with no
/// scripted reply left.
pub open spec fn spec_scripted_trace(
    actions: Seq<Action>,
    hook: ActionHook,
    replies: Seq<Reply>,
    cur: int,
    es: Seq<(Seq<char>, Seq<char>)>,
) -> Option<Seq<TraceStep>>
    decreases actions.len(),
{
    if actions.len() == 0 {
        Some(Seq::empty())
    } else if actions[0].hook != hook {
        spec_scripted_trace(actions.skip(1), hook, replies, cur, es)
    } else {
        let a = actions[0];
        match a.interaction {
            None => {
                let step = TraceStep {
                    name: a.name@,
                    cancelled: false,
                    answer: None,
                    script: spec_script_of(a.run, es),
                };
                match spec_scripted_trace(actions.skip(1), hook, replies, cur, es) {
                    Some(rest) => Some(seq![step] + rest),
                    None => None,
                }
            },
            Some(interaction) => {
                if !(0 <= cur < replies.len()) {
                    None
                } else {
                    match spec_reply_text(replies[cur]) {
                        None => if a.break_if_cancel {
                            None
                        } else {
                            let step = TraceStep {
                                name: a.name@,
                                cancelled: true,
                                answer: None,
                                script: None,
                            };
                            match spec_scripted_trace(actions.skip(1), hook, replies, cur + 1, es) {
                                Some(rest) => Some(seq![step] + rest),
                                None => None,
                            }
                        },
                        Some(t) => {
                            let es2 = match interaction.out {
                                Some(out) => spec_insert_entry(es, out@, t),
                                None => es,
                            };
                            let step = TraceStep {
                                name: a.name@,
                                cancelled: false,
                                answer: Some(t),
                                script: spec_script_of(a.run, es2),
                            };
                            match spec_scripted_trace(
                                actions.skip(1),
                                hook,
                                replies,
                                cur + 1,
                                es2,
                            ) {
                                Some(rest) => Some(seq![step] + rest),
                                None => None,
                            }
                        },
                    }
                }
            },
        }
    }
}

/// No action of the hook carries a command: a pass whose only outside
/// work is prompting.
pub open spec fn spec_hook_commandless(actions: Seq<Action>, hook: ActionHook) -> bool {
    forall|k: int|
        0 <= k < actions.len() ==> ((#[trigger] actions[k]).hook == hook ==> actions[k].run
            is None)
}

/// No action of the hook asks a question: a pass with nothing to answer.
pub open spec fn spec_hook_interactionless(actions: Seq<Action>, hook: ActionHook) -> bool {
    forall|k: int|
        0 <= k < actions.len() ==> ((#[trigger] actions[k]).hook == hook ==> actions[k].interaction
            is None)
}

/// The variable bag a scripted pass ends with: each answered interaction
/// with an output variable writes its text, in order.
pub open spec fn spec_scripted_bag(
    actions: Seq<Action>,
    hook: ActionHook,
    replies: Seq<Reply>,
    cur: int,
    es: Seq<(Seq<char>, Seq<char>)>,
) -> Seq<(Seq<char>, Seq<char>)>
    decreases actions.len(),
{
    if actions.len() == 0 {
        es
    } else if actions[0].hook != hook {
        spec_scripted_bag(actions.skip(1), hook, replies, cur, es)
    } else {
        match actions[0].interaction {
            None => spec_scripted_bag(actions.skip(1), hook, replies, cur, es),
            Some(interaction) => {
                if !(0 <= cur < replies.len()) {
                    es
                } else {
                    match spec_reply_text(replies[cur]) {
                        None => if actions[0].break_if_cancel {
                            es
                        } else {
                            spec_scripted_bag(actions.skip(1), hook, replies, cur + 1, es)
                        },
                        Some(t) => {
                            let es2 = match interaction.out {
                                Some(out) => spec_insert_entry(es, out@, t),
                                None => es,
                            };
                            spec_scripted_bag(actions.skip(1), hook, replies, cur + 1, es2)
                        },
                    }
                }
            },
        }
    }
}

/// A recorded result realizes an expected step: same action, same
/// response, same rendered command.
pub open spec fn step_matches(result: ActionResult, step: TraceStep) -> bool {
    &&& result.name@ == step.name
    &&& (step.cancelled ==> result.response is Cancel)
    &&& (match step.answer {
        Some(t) => result.response matches Response::Text(x) && x@ == t,
        None => !step.cancelled ==> result.response is Absent,
    })
    &&& (match step.script {
        Some(sc) => result.run matches Some(rr) && rr.script@ == sc,
        None => result.run is None,
    })
}

/// Runs actions, either against the live terminal or against a scripted
/// sequence of replies consumed in order.
pub struct ActionRunner {
    events: Option<Vec<Reply>>,
    cursor: usize,
}

impl Default for ActionRunner {
    /// A runner that asks the operator.
    fn default() -> (r: ActionRunner)
        ensures
            r.scripted() is None,
    {
        ActionRunner { events: None, cursor: 0 }
    }
}

impl ActionRunner {
    /// The scripted replies not yet consumed, when in replay mode.
    pub closed spec fn scripted(&self) -> Option<(Seq<Reply>, int)> {
        match self.events {
            Some(evs) => Some((evs@, self.cursor as int)),
            None => None,
        }
    }

    /// A runner that replays the given answers instead of prompting.
    pub fn with_events(events: Vec<Reply>) -> (r: ActionRunner)
        ensures
            r.scripted() matches Some(s) && s.0 == events@ && s.1 == 0,
    {
        ActionRunner { events: Some(events), cursor: 0 }
    }

    /// Runs every action of the given hook, in declaration order: asks its
    /// question, records the answer, and runs its command rendered against
    /// the bag. A cancelled answer skips the command, or stops the whole
    /// run when the action breaks on cancel; a failing command stops the
    /// run unless the action ignores exit codes.
    pub fn run(
        &mut self,
        actions: &Vec<Action>,
        working_dir: Option<&String>,
        varbag: &mut VarBag,
        hook: ActionHook,
    ) -> (r: Result<Vec<ActionResult>, Error>)
        requires
            old(varbag).wf(),
        ensures
            final(varbag).wf(),
            r matches Err(e) ==> e is Action,
            r matches Ok(results) ==> results@.len() == spec_hook_actions(actions@, hook).len()
                && (forall|k: int|
                0 <= k < results@.len() ==> (#[trigger] results@[k].name)@ == spec_hook_actions(
                    actions@,
                    hook,
                )[k].name@),
            (match old(self).scripted() {
                Some(s) => spec_scripted_abort(actions@, hook, s.0, s.1),
                None => false,
            }) ==> r is Err,
            match old(self).scripted() {
                Some(s) => match spec_scripted_trace(
                    actions@,
                    hook,
                    s.0,
                    s.1,
                    old(varbag).entries_view(),
                ) {
                    Some(trace) => r matches Ok(results) ==> results@.len() == trace.len() && (
                    forall|k: int|
                        0 <= k < trace.len() ==> step_matches(#[trigger] results@[k], trace[k])),
                    None => r is Err,
                },
                None => true,
            },
            match old(self).scripted() {
                Some(s) => (spec_scripted_trace(
                    actions@,
                    hook,
                    s.0,
                    s.1,
                    old(varbag).entries_view(),
                ) is Some && spec_hook_commandless(actions@, hook)) ==> r is Ok,
                None => true,
            },
            (spec_hook_interactionless(actions@, hook) && spec_hook_commandless(actions@, hook))
                ==> r is Ok,
            r matches Ok(results) ==> (forall|k: int|
                0 <= k < results@.len() ==> ((#[trigger] results@[k].run) matches Some(rr) ==> (
                rr.code == 0 || spec_hook_actions(actions@, hook)[k].ignore_exit))),
            match old(self).scripted() {
                Some(s) => r is Ok ==> final(varbag).entries_view() == spec_scripted_bag(
                    actions@,
                    hook,
                    s.0,
                    s.1,
                    old(varbag).entries_view(),
                ),
                None => true,
            },
            r matches Ok(results) ==> (forall|k: int|
                0 <= k < results@.len() ==> (((#[trigger] results@[k].run) is Some)
                    == (spec_hook_actions(actions@, hook)[k].run is Some && !(results@[k].response
                    is Cancel)))),
    {
        let ghost scripted0 = self.scripted();
        let mut results: Vec<ActionResult> = Vec::new();
        let mut i: usize = 0;
        proof {
            assert(actions@.skip(0) =~= actions@);
        }
        while i < actions.len()
            invariant
                varbag.wf(),
                scripted0 == old(self).scripted(),
                i <= actions@.len(),
                results@.len() == spec_hook_actions(actions@.take(i as int), hook).len(),
                forall|k: int|
                    0 <= k < results@.len() ==> (#[trigger] results@[k].name)@
                        == spec_hook_actions(actions@.take(i as int), hook)[k].name@,
                forall|k: int|
                    0 <= k < results@.len() ==> (((#[trigger] results@[k].run) is Some)
                        == (spec_hook_actions(actions@.take(i as int), hook)[k].run is Some && !(
                    results@[k].response is Cancel))),
                forall|k: int|
                    0 <= k < results@.len() ==> ((#[trigger] results@[k].run) matches Some(rr)
                        ==> (rr.code == 0 || spec_hook_actions(actions@.take(i as int), hook)[k]
                        .ignore_exit)),
                match scripted0 {
                    Some(s) => self.scripted() matches Some(now) && now.0 == s.0
                        && spec_scripted_abort(actions@, hook, s.0, s.1) == spec_scripted_abort(
                        actions@.skip(i as int),
                        hook,
                        now.0,
                        now.1,
                    ) && (match spec_scripted_trace(
                        actions@.skip(i as int),
                        hook,
                        now.0,
                        now.1,
                        varbag.entries_view(),
                    ) {
                        Some(rest) => spec_scripted_trace(
                            actions@,
                            hook,
                            s.0,
                            s.1,
                            old(varbag).entries_view(),
                        ) matches Some(all) && all.len() == results@.len() + rest.len() && (
                        forall|k: int|
                            0 <= k < results@.len() ==> step_matches(
                                #[trigger] results@[k],
                                all[k],
                            )) && all.skip(results@.len() as int) == rest,
                        None => spec_scripted_trace(
                            actions@,
                            hook,
                            s.0,
                            s.1,
                            old(varbag).entries_view(),
                        ) is None,
                    }) && spec_scripted_bag(actions@, hook, s.0, s.1, old(varbag).entries_view())
                        == spec_scripted_bag(
                        actions@.skip(i as int),
                        hook,
                        s.0,
                        now.1,
                        varbag.entries_view(),
                    ),
                    None => self.scripted() is None,
                },
            decreases actions@.len() - i,
        {
            let ghost a = actions@[i as int];
            let ghost es_pre = varbag.entries_view();
            let ghost sc_pre = self.scripted();
            let ghost n_pre = results@.len() as int;
            let ghost pre_take = spec_hook_actions(actions@.take(i as int), hook);
            proof {
                assert(actions@.skip(i as int)[0] == actions@[i as int]);
                assert(actions@.skip(i as int).skip(1) =~= actions@.skip(i + 1));
                lemma_hook_take_step(actions@, hook, i as int);
            }
            let action = &actions[i];
            if action.hook == hook {
                let ghost has_question = a.interaction is Some;
                let ghost mut rtext: Option<Seq<char>> = None;
                let response: Response = match &action.interaction {
                    Some(interaction) => {
                        let reply = match self.next_reply(interaction) {
                            Ok(rep) => rep,
                            Err(e) => {
                                proof {
                                    assert(!spec_hook_interactionless(actions@, hook)) by {
                                        assert(actions@[i as int].hook == hook
                                            && actions@[i as int].interaction is Some);
                                    }
                                    match scripted0 {
                                        Some(s) => {
                                            assert(spec_scripted_trace(
                                                actions@.skip(i as int),
                                                hook,
                                                s.0,
                                                sc_pre->Some_0.1,
                                                es_pre,
                                            ) is None);
                                        },
                                        None => {},
                                    }
                                }
                                return Err(e);
                            },
                        };
                        proof {
                            rtext = spec_reply_text(reply);
                        }
                        interaction.play(reply, varbag)
                    },
                    None => Response::Absent,
                };
                match response {
                    Response::Cancel => {
                        if action.break_if_cancel {
                            proof {
                                assert(!spec_hook_interactionless(actions@, hook)) by {
                                    assert(actions@[i as int].hook == hook
                                        && actions@[i as int].interaction is Some);
                                }
                                match scripted0 {
                                    Some(s) => {
                                        assert(spec_scripted_trace(
                                            actions@.skip(i as int),
                                            hook,
                                            s.0,
                                            sc_pre->Some_0.1,
                                            es_pre,
                                        ) is None);
                                    },
                                    None => {},
                                }
                            }
                            let mut m = String::new();
                            m.append("stop requested (break_if_cancel)");
                            return Err(Error::Action(m));
                        }
                        results.push(
                            ActionResult {
                                name: action.name.clone(),
                                run: None,
                                response: Response::Cancel,
                            },
                        );
                        proof {
                            let step = TraceStep {
                                name: a.name@,
                                cancelled: true,
                                answer: None,
                                script: None,
                            };
                            step_glue(
                                scripted0,
                                sc_pre,
                                self.scripted(),
                                actions@,
                                hook,
                                i as int,
                                es_pre,
                                varbag.entries_view(),
                                old(varbag).entries_view(),
                                step,
                                results@,
                                n_pre,
                            );
                        }
                    },
                    resp => {
                        let ghost answer: Option<Seq<char>> = if has_question {
                            rtext
                        } else {
                            None
                        };
                        match &action.run {
                            None => {
                                results.push(
                                    ActionResult {
                                        name: action.name.clone(),
                                        run: None,
                                        response: resp,
                                    },
                                );
                                proof {
                                    let step = TraceStep {
                                        name: a.name@,
                                        cancelled: false,
                                        answer,
                                        script: None,
                                    };
                                    step_glue(
                                        scripted0,
                                        sc_pre,
                                        self.scripted(),
                                        actions@,
                                        hook,
                                        i as int,
                                        es_pre,
                                        varbag.entries_view(),
                                        old(varbag).entries_view(),
                                        step,
                                        results@,
                                        n_pre,
                                    );
                                }
                            },
                            Some(script) => {
                                let rendered = render_script(script, varbag);
                                match run_shell(&rendered, working_dir, action.capture) {
                                    Err(m) => {
                                        proof {
                                            assert(!spec_hook_commandless(actions@, hook)) by {
                                                assert(actions@[i as int].hook == hook
                                                    && actions@[i as int].run is Some);
                                            }
                                        }
                                        return Err(Error::Action(m));
                                    },
                                    Ok((code, out, err)) => {
                                        if !action.ignore_exit && code != 0 {
                                            proof {
                                                assert(!spec_hook_commandless(actions@, hook)) by {
                                                    assert(actions@[i as int].hook == hook
                                                        && actions@[i as int].run is Some);
                                                }
                                            }
                                            return Err(
                                                Error::Action(command_failed_message(
                                                    &action.name,
                                                    code,
                                                )),
                                            );
                                        }
                                        results.push(
                                            ActionResult {
                                                name: action.name.clone(),
                                                run: Some(
                                                    RunResult { script: rendered, code, out, err },
                                                ),
                                                response: resp,
                                            },
                                        );
                                        proof {
                                            let step = TraceStep {
                                                name: a.name@,
                                                cancelled: false,
                                                answer,
                                                script: Some(
                                                    spec_render_script(
                                                        a.run->Some_0@,
                                                        varbag.entries_view(),
                                                    ),
                                                ),
                                            };
                                            step_glue(
                                                scripted0,
                                                sc_pre,
                                                self.scripted(),
                                                actions@,
                                                hook,
                                                i as int,
                                                es_pre,
                                                varbag.entries_view(),
                                                old(varbag).entries_view(),
                                                step,
                                                results@,
                                                n_pre,
                                            );
                                        }
                                    },
                                }
                            },
                        }
                    },
                }
            }
            proof {
                assert(spec_hook_actions(actions@.take(i + 1), hook) =~= if actions@[i as int].hook
                    == hook {
                    pre_take + seq![actions@[i as int]]
                } else {
                    pre_take
                });
            }
            i = i + 1;
        }
        proof {
            assert(actions@.take(actions@.len() as int) =~= actions@);
            assert(actions@.skip(actions@.len() as int) =~= Seq::<Action>::empty());
        }
        Ok(results)
    }

    /// The next reply: the next scripted answer, or one interactive
    /// question. Running out of scripted answers stops the run.
    fn next_reply(&mut self, interaction: &Interaction) -> (r: Result<Reply, Error>)
        ensures
            r matches Err(e) ==> e is Action,
            match old(self).scripted() {
                Some(s) => {
                    &&& (r is Err) == !(0 <= s.1 < s.0.len())
                    &&& (r matches Ok(rep) ==> (final(self).scripted() matches Some(now) && now.0
                        == s.0 && now.1 == s.1 + 1) && spec_reply_text(rep) == spec_reply_text(
                        s.0[s.1],
                    ))
                },
                None => final(self).scripted() is None,
            },
    {
        match &self.events {
            Some(evs) => {
                let at = self.cursor;
                if self.cursor < usize::MAX {
                    self.cursor = self.cursor + 1;
                } else {
                    self.cursor = usize::MAX;
                }
                if at < evs.len() {
                    let rep = clone_reply(&evs[at]);
                    proof {
                        assert(self.cursor == at + 1);
                    }
                    Ok(rep)
                } else {
                    let mut m = String::new();
                    m.append("no scripted reply left for interaction");
                    Err(Error::Action(m))
                }
            },
            None => match ask_operator(&interaction.kind, &interaction.prompt, &interaction.options) {
                Ok(rep) => Ok(rep),
                Err(m) => Err(Error::Action(m)),
            },
        }
    }
}

/// The filtered pass grows by one exactly on a hook match.
proof fn lemma_hook_take_step(actions: Seq<Action>, hook: ActionHook, i: int)
    requires
        0 <= i < actions.len(),
    ensures
        spec_hook_actions(actions.take(i + 1), hook) == if actions[i].hook == hook {
            spec_hook_actions(actions.take(i), hook) + seq![actions[i]]
        } else {
            spec_hook_actions(actions.take(i), hook)
        },
    decreases i,
{
    if i == 0 {
        assert(actions.take(1) =~= seq![actions[0]]);
        assert(actions.take(1).skip(1) =~= actions.take(0));
        assert(spec_hook_actions(actions.take(0), hook) =~= Seq::<Action>::empty());
        if actions[0].hook == hook {
            assert(spec_hook_actions(actions.take(1), hook) =~= spec_hook_actions(
                actions.take(0),
                hook,
            ) + seq![actions[0]]);
        }
    } else {
        lemma_hook_take_step(actions.skip(1), hook, i - 1);
        assert(actions.take(i + 1).skip(1) =~= actions.skip(1).take(i));
        assert(actions.take(i).skip(1) =~= actions.skip(1).take(i - 1));
        assert(actions.skip(1)[i - 1] == actions[i]);
        assert(actions.take(i + 1)[0] == actions[0]);
        assert(actions.take(i)[0] == actions[0]);
        if actions[0].hook == hook {
            if actions[i].hook == hook {
                assert(seq![actions.take(i + 1)[0]] + (spec_hook_actions(
                    actions.skip(1).take(i - 1),
                    hook,
                ) + seq![actions[i]]) =~= (seq![actions.take(i)[0]] + spec_hook_actions(
                    actions.skip(1).take(i - 1),
                    hook,
                )) + seq![actions[i]]);
            }
        }
    }
}

/// Re-establishes the trace bookkeeping after one processed action: the
/// expected pass loses its head step, which the freshly recorded result
/// realizes.
proof fn step_glue(
    scripted0: Option<(Seq<Reply>, int)>,
    sc_pre: Option<(Seq<Reply>, int)>,
    sc_now: Option<(Seq<Reply>, int)>,
    actions: Seq<Action>,
    hook: ActionHook,
    i: int,
    es_pre: Seq<(Seq<char>, Seq<char>)>,
    es_now: Seq<(Seq<char>, Seq<char>)>,
    es0: Seq<(Seq<char>, Seq<char>)>,
    step: TraceStep,
    results: Seq<ActionResult>,
    n_pre: int,
)
    requires
        0 <= i < actions.len(),
        0 <= n_pre,
        results.len() == n_pre + 1,
        step_matches(results[n_pre], step),
        match scripted0 {
            Some(s) => {
                &&& sc_pre matches Some(pre) && pre.0 == s.0
                &&& sc_now matches Some(now) && now.0 == s.0
                &&& spec_scripted_trace(actions.skip(i), hook, s.0, sc_pre->Some_0.1, es_pre) == (
                match spec_scripted_trace(actions.skip(i + 1), hook, s.0, sc_now->Some_0.1, es_now) {
                    Some(r) => Some(seq![step] + r),
                    None => None::<Seq<TraceStep>>,
                })
                &&& (match spec_scripted_trace(actions.skip(i), hook, s.0, sc_pre->Some_0.1, es_pre) {
                    Some(rest) => spec_scripted_trace(actions, hook, s.0, s.1, es0) matches Some(
                        all,
                    ) && all.len() == n_pre + rest.len() && (forall|k: int|
                        0 <= k < n_pre ==> step_matches(#[trigger] results[k], all[k]))
                        && all.skip(n_pre) == rest,
                    None => spec_scripted_trace(actions, hook, s.0, s.1, es0) is None,
                })
            },
            None => true,
        },
    ensures
        match scripted0 {
            Some(s) => (match spec_scripted_trace(
                actions.skip(i + 1),
                hook,
                s.0,
                sc_now->Some_0.1,
                es_now,
            ) {
                Some(rest) => spec_scripted_trace(actions, hook, s.0, s.1, es0) matches Some(all)
                    && all.len() == results.len() + rest.len() && (forall|k: int|
                    0 <= k < results.len() ==> step_matches(#[trigger] results[k], all[k]))
                    && all.skip(results.len() as int) == rest,
                None => spec_scripted_trace(actions, hook, s.0, s.1, es0) is None,
            }),
            None => true,
        },
{
    match scripted0 {
        Some(s) => {
            let rest_pre = spec_scripted_trace(actions.skip(i), hook, s.0, sc_pre->Some_0.1, es_pre);
            let rest_now = spec_scripted_trace(
                actions.skip(i + 1),
                hook,
                s.0,
                sc_now->Some_0.1,
                es_now,
            );
            match rest_now {
                None => {
                    assert(rest_pre is None);
                },
                Some(rn) => {
                    let all = spec_scripted_trace(actions, hook, s.0, s.1, es0)->Some_0;
                    assert(all.skip(n_pre) == seq![step] + rn);
                    assert(all.len() == n_pre + 1 + rn.len());
                    assert(all.skip(n_pre)[0] == all[n_pre]);
                    assert(all[n_pre] == step);
                    assert(all.skip(n_pre).skip(1) =~= all.skip(n_pre + 1));
                    assert((seq![step] + rn).skip(1) =~= rn);
                    assert(all.skip(n_pre + 1) == rn);
                },
            }
        },
        None => {},
    }
}

/// The message of a failing command: the action's name and the exit code.
fn command_failed_message(name: &String, code: i32) -> (r: String)
    ensures
        r@ == "in action '"@ + name@ + "': command returned exit code '"@ + spec_i32_decimal(
            code as int,
        ) + "'"@,
{
    let mut out: Vec<char> = txt::to_chars("in action '");
    let mut name_chars = txt::to_chars(name.as_str());
    let mut mid = txt::to_chars("': command returned exit code '");
    let mut digits = i32_decimal(code);
    let mut tail = txt::to_chars("'");
    out.append(&mut name_chars);
    out.append(&mut mid);
    out.append(&mut digits);
    out.append(&mut tail);
    txt::chars_string(&out)
}

fn clone_reply(r: &Reply) -> (out: Reply)
    ensures
        spec_reply_text(out) == spec_reply_text(*r),
{
    match r {
        Reply::Bool(b) => Reply::Bool(*b),
        Reply::Text(s) => Reply::Text(s.clone()),
        Reply::Cancelled => Reply::Cancelled,
    }
}

/// The decimal digit characters of a non-negative number.
pub open spec fn spec_nat_decimal(n: nat) -> Seq<char>
    decreases n,
{
    if n < 10 {
        seq![spec_digit_char(n)]
    } else {
        spec_nat_decimal(n / 10) + seq![spec_digit_char(n % 10)]
    }
}

pub open spec fn spec_digit_char(d: nat) -> char {
    if d == 0 {
        '0'
    } else if d == 1 {
        '1'
    } else if d == 2 {
        '2'
    } else if d == 3 {
        '3'
    } else if d == 4 {
        '4'
    } else if d == 5 {
        '5'
    } else if d == 6 {
        '6'
    } else if d == 7 {
        '7'
    } else if d == 8 {
        '8'
    } else {
        '9'
    }
}

/// The decimal rendering of a signed number.
pub open spec fn spec_i32_decimal(n: int) -> Seq<char> {
    if n < 0 {
        seq!['-'] + spec_nat_decimal((-n) as nat)
    } else {
        spec_nat_decimal(n as nat)
    }
}

pub fn u64_decimal(n: u64) -> (r: Vec<char>)
    ensures
        r@ == spec_nat_decimal(n as nat),
    decreases n,
{
    let d: u64 = n % 10;
    let c: char = if d == 0 {
        '0'
    } else if d == 1 {
        '1'
    } else if d == 2 {
        '2'
    } else if d == 3 {
        '3'
    } else if d == 4 {
        '4'
    } else if d == 5 {
        '5'
    } else if d == 6 {
        '6'
    } else if d == 7 {
        '7'
    } else if d == 8 {
        '8'
    } else {
        '9'
    };
    if n < 10 {
        let mut r: Vec<char> = Vec::new();
        r.push(c);
        proof {
            assert(r@ =~= seq![spec_digit_char(n as nat)]);
        }
        r
    } else {
        let mut r = u64_decimal(n / 10);
        r.push(c);
        proof {
            assert(r@ =~= spec_nat_decimal((n / 10) as nat) + seq![spec_digit_char((n % 10) as nat)]);
        }
        r
    }
}

fn i32_decimal(n: i32) -> (r: Vec<char>)
    ensures
        r@ == spec_i32_decimal(n as int),
{
    if n < 0 {
        let mag: u64 = if n == i32::MIN {
            2147483648u64
        } else {
            (-n) as u64
        };
        let mut r: Vec<char> = Vec::new();
        r.push('-');
        let mut digits = u64_decimal(mag);
        r.append(&mut digits);
        r
    } else {
        u64_decimal(n as u64)
    }
}

} // verus!
