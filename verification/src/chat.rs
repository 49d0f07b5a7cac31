//! One chat session: the conversation ledger, the session state captured
//! from the resolved profile, and the dispatch step that classifies one
//! line of input and decides what happens next. The surrounding loop —
//! reading lines, calling the remote model, rendering — lives outside;
//! it feeds lines and model replies in and performs the actions decided
//! here.

use vstd::prelude::*;
use crate::commands::{parse, spec_help, spec_parse, CmdModel, Command};
use crate::config::{
    entry_names, lookup, spec_color_of, Color, Config, ConfigModel, Profile, ProfileModel,
};
use crate::errors::{ApiFailure, ParseError, ProfileResolutionError};
use crate::text::{clone_strings, str_eq, views};

verus! {

/// Who spoke one conversation turn.
#[derive(Debug, Clone, Copy, PartialEq, Eq, Structural)]
pub enum Role {
    System,
    User,
    Model,
}

/// One role-tagged unit of conversation text.
pub struct Turn {
    pub role: Role,
    pub text: String,
}

/// The mathematical shape of a `Turn`.
pub struct TurnModel {
    pub role: Role,
    pub text: Seq<char>,
}

impl View for Turn {
    type V = TurnModel;

    open spec fn view(&self) -> TurnModel {
        TurnModel { role: self.role, text: self.text@ }
    }
}

impl Clone for Turn {
    /// A copy that carries the same role and text.
    fn clone(&self) -> (r: Turn)
        ensures
            r@ == self@,
    {
        Turn { role: self.role, text: self.text.clone() }
    }
}

/// The views of a sequence of turns.
pub open spec fn turn_views(s: Seq<Turn>) -> Seq<TurnModel> {
    s.map_values(|t: Turn| t@)
}

/// The append-only, ordered record of conversation turns for one session.
/// Nothing is ever deleted, reordered or deduplicated.
pub struct Ledger {
    turns: Vec<Turn>,
}

impl View for Ledger {
    type V = Seq<TurnModel>;

    closed spec fn view(&self) -> Seq<TurnModel> {
        turn_views(self.turns@)
    }
}

impl Ledger {
    /// An empty ledger.
    pub fn new() -> (r: Ledger)
        ensures
            r@ == Seq::<TurnModel>::empty(),
    {
        let r = Ledger { turns: Vec::new() };
        proof {
            assert(r@ =~= Seq::<TurnModel>::empty());
        }
        r
    }

    /// Appends one turn at the end; everything already recorded stays
    /// where it is.
    pub fn push(&mut self, t: Turn)
        ensures
            final(self)@ == old(self)@.push(t@),
    {
        let ghost pre = self@;
        self.turns.push(t);
        proof {
            assert(self@ =~= pre.push(self.turns@.last()@));
        }
    }

    /// How many turns are recorded.
    pub fn len(&self) -> (n: usize)
        ensures
            n == self@.len(),
    {
        self.turns.len()
    }

    /// The recorded turns, oldest first.
    pub fn iterate(&self) -> (r: &Vec<Turn>)
        ensures
            turn_views(r@) == self@,
    {
        &self.turns
    }
}

/// Why a chat session ended.
pub enum SessionEnd {
    /// The user asked to leave.
    Exit,
    /// The user asked for another profile; the process loop reloads.
    ProfileSwitch(String),
    /// Input ran out; a benign end.
    Idle,
    /// The remote call failed; the process loop reports it.
    Failure(ApiFailure),
}

/// What the session decided to do with one line of input.
pub enum DispatchOutcome {
    /// The session is over, for the given reason.
    Terminated(SessionEnd),
    /// Print these help lines, then keep reading.
    HelpLines(Vec<String>),
    /// Print these profile names, then keep reading.
    ProfileList(Vec<String>),
    /// Report this parse error, then keep reading; nothing was mutated.
    ParseFailure(ParseError),
    /// A rendering setting was changed; keep reading.
    Applied,
    /// The option is not recognized; warn, change nothing, keep reading.
    UnknownOption,
    /// A user turn was appended to the ledger: send the whole
    /// conversation to the model and feed the reply back.
    CallModel,
}

/// One chat session's state: the profile data captured at construction,
/// the local rendering settings, and the conversation ledger.
pub struct ChatSession {
    pub model_name: String,
    pub system_lines: Vec<String>,
    pub profile_names: Vec<String>,
    pub fg_color: Color,
    pub bg_color: Option<Color>,
    pub ledger: Ledger,
}

/// The mathematical shape of a `ChatSession`.
pub struct SessionModel {
    pub model_name: Seq<char>,
    pub system_lines: Seq<Seq<char>>,
    pub profile_names: Seq<Seq<char>>,
    pub fg_color: Color,
    pub bg_color: Option<Color>,
    pub ledger: Seq<TurnModel>,
}

impl View for ChatSession {
    type V = SessionModel;

    open spec fn view(&self) -> SessionModel {
        SessionModel {
            model_name: self.model_name@,
            system_lines: views(self.system_lines@),
            profile_names: views(self.profile_names@),
            fg_color: self.fg_color,
            bg_color: self.bg_color,
            ledger: self.ledger@,
        }
    }
}

/// The profile a session is built against: the active one when present,
/// else the one named `default`, else none.
pub open spec fn spec_resolve_profile(c: ConfigModel) -> Option<ProfileModel> {
    match lookup(c.profiles, c.active_profile) {
        Some(p) => Some(p),
        None => lookup(c.profiles, "default"@),
    }
}

/// Whether the active profile is missing, so that construction will fall
/// back to the profile named `default`.
pub fn active_profile_missing(config: &Config) -> (r: bool)
    ensures
        r == (lookup(config@.profiles, config@.active_profile) is None),
{
    match config.profiles.get(config.active_profile.as_str()) {
        Some(_) => false,
        None => true,
    }
}

impl ChatSession {
    /// Builds a session against the resolved profile: its model name and
    /// system-prompt lines are captured, the ledger starts empty, and the
    /// rendering color comes from the configuration. Fails exactly when
    /// no profile can be resolved.
    pub fn new(config: &Config) -> (r: Result<ChatSession, ProfileResolutionError>)
        ensures
            match r {
                Ok(s) => spec_resolve_profile(config@) matches Some(p) && s@ == (SessionModel {
                    model_name: p.model_name,
                    system_lines: p.system_prompt,
                    profile_names: entry_names(config@.profiles),
                    fg_color: config@.color,
                    bg_color: None,
                    ledger: Seq::empty(),
                }),
                Err(_) => spec_resolve_profile(config@) is None,
            },
    {
        let profile = match config.profiles.get(config.active_profile.as_str()) {
            Some(p) => p,
            None => match config.profiles.get("default") {
                Some(p) => p,
                None => {
                    return Err(ProfileResolutionError);
                },
            },
        };
        let s = ChatSession {
            model_name: profile.model_name.clone(),
            system_lines: clone_strings(&profile.system_prompt),
            profile_names: config.profiles.names(),
            fg_color: config.color,
            bg_color: None,
            ledger: Ledger::new(),
        };
        proof {
            assert(s@.system_lines =~= spec_resolve_profile(config@)->Some_0.system_prompt);
        }
        Ok(s)
    }

    /// Classifies one line of input and takes the step the grammar asks
    /// for: terminate, answer locally, change a rendering setting, or
    /// append a user turn for the model to answer. A parse failure and
    /// every local answer leave the session untouched.
    pub fn dispatch_line(&mut self, line: &str) -> (o: DispatchOutcome)
        ensures
            ({
                let m = spec_parse(line@);
                &&& (m matches Err(e) ==> o matches DispatchOutcome::ParseFailure(e2) && e2 == e
                    && final(self)@ == old(self)@)
                &&& (m matches Ok(c) ==> match c {
                    CmdModel::Exit => o matches DispatchOutcome::Terminated(r) && r
                        == SessionEnd::Exit && final(self)@ == old(self)@,
                    CmdModel::Help(f) => o matches DispatchOutcome::HelpLines(ls) && views(ls@)
                        == spec_help(f) && final(self)@ == old(self)@,
                    CmdModel::Profile(n) => if n == "list"@ {
                        o matches DispatchOutcome::ProfileList(ns) && views(ns@) == old(
                            self,
                        )@.profile_names && final(self)@ == old(self)@
                    } else {
                        o matches DispatchOutcome::Terminated(r) && r matches
                            SessionEnd::ProfileSwitch(nm) && nm@ == n && final(self)@ == old(
                            self,
                        )@
                    },
                    CmdModel::SetOption(opt, val) => if opt == "fgcolor"@ {
                        o matches DispatchOutcome::Applied && final(self)@ == (SessionModel {
                            fg_color: spec_color_of(val),
                            ..old(self)@
                        })
                    } else if opt == "bgcolor"@ {
                        o matches DispatchOutcome::Applied && final(self)@ == (SessionModel {
                            bg_color: Some(spec_color_of(val)),
                            ..old(self)@
                        })
                    } else {
                        o matches DispatchOutcome::UnknownOption && final(self)@ == old(self)@
                    },
                    CmdModel::Prompt(t) => o matches DispatchOutcome::CallModel && final(self)@
                        == (SessionModel {
                        ledger: old(self)@.ledger.push(TurnModel { role: Role::User, text: t }),
                        ..old(self)@
                    }),
                })
            }),
    {
        match parse(line) {
            Err(e) => DispatchOutcome::ParseFailure(e),
            Ok(Command::Exit) => DispatchOutcome::Terminated(SessionEnd::Exit),
            Ok(Command::Help(f)) => DispatchOutcome::HelpLines(Command::help(f)),
            Ok(Command::Profile { name }) => {
                if str_eq(name.as_str(), "list") {
                    DispatchOutcome::ProfileList(clone_strings(&self.profile_names))
                } else {
                    DispatchOutcome::Terminated(SessionEnd::ProfileSwitch(name))
                }
            },
            Ok(Command::SetOption { option, value }) => {
                let color = Color::parse(value.as_str());
                if str_eq(option.as_str(), "fgcolor") {
                    self.fg_color = color;
                    DispatchOutcome::Applied
                } else if str_eq(option.as_str(), "bgcolor") {
                    self.bg_color = Some(color);
                    DispatchOutcome::Applied
                } else {
                    DispatchOutcome::UnknownOption
                }
            },
            Ok(Command::Prompt(text)) => {
                self.ledger.push(Turn { role: Role::User, text });
                DispatchOutcome::CallModel
            },
        }
    }
}

/// One piece of a model reply: generated text, or something else
/// (skipped by design).
pub enum ReplyPart {
    Text(String),
    Other,
}

/// The mathematical shape of a `ReplyPart`.
pub enum ReplyPartModel {
    Text(Seq<char>),
    Other,
}

impl View for ReplyPart {
    type V = ReplyPartModel;

    open spec fn view(&self) -> ReplyPartModel {
        match self {
            ReplyPart::Text(t) => ReplyPartModel::Text(t@),
            ReplyPart::Other => ReplyPartModel::Other,
        }
    }
}

/// The views of a sequence of reply parts.
pub open spec fn part_views(s: Seq<ReplyPart>) -> Seq<ReplyPartModel> {
    s.map_values(|p: ReplyPart| p@)
}

/// One candidate reply: its parts, in order.
pub struct Candidate {
    pub parts: Vec<ReplyPart>,
}

impl View for Candidate {
    type V = Seq<ReplyPartModel>;

    open spec fn view(&self) -> Seq<ReplyPartModel> {
        part_views(self.parts@)
    }
}

/// The views of a sequence of candidates.
pub open spec fn cand_views(s: Seq<Candidate>) -> Seq<Seq<ReplyPartModel>> {
    s.map_values(|c: Candidate| c@)
}

/// The text parts of a reply, in order, from position `i` on;
/// non-text parts are skipped.
pub open spec fn texts_from(parts: Seq<ReplyPartModel>, i: int) -> Seq<Seq<char>>
    decreases parts.len() - i,
{
    if i < 0 || i >= parts.len() {
        Seq::empty()
    } else {
        match parts[i] {
            ReplyPartModel::Text(t) => seq![t] + texts_from(parts, i + 1),
            ReplyPartModel::Other => texts_from(parts, i + 1),
        }
    }
}

/// The text parts of all candidates, candidate by candidate, in order,
/// from candidate `i` on.
pub open spec fn cand_texts_from(cs: Seq<Seq<ReplyPartModel>>, i: int) -> Seq<Seq<char>>
    decreases cs.len() - i,
{
    if i < 0 || i >= cs.len() {
        Seq::empty()
    } else {
        texts_from(cs[i], 0) + cand_texts_from(cs, i + 1)
    }
}

/// Every text part of a whole reply, in order.
pub open spec fn texts_of_candidates(cs: Seq<Seq<ReplyPartModel>>) -> Seq<Seq<char>> {
    cand_texts_from(cs, 0)
}

/// The model turns carrying the given texts, in order.
pub open spec fn model_turns(texts: Seq<Seq<char>>) -> Seq<TurnModel> {
    texts.map_values(|t: Seq<char>| TurnModel { role: Role::Model, text: t })
}

/// The outgoing payload of one model call: the constant system
/// instruction's parts and the whole conversation so far, replayed.
pub struct ModelRequest {
    pub system_parts: Vec<String>,
    pub contents: Vec<Turn>,
}

impl ChatSession {
    /// The payload for the next model call: context is rebuilt from the
    /// full ledger on every call, never sent as a diff.
    pub fn build_request(&self) -> (r: ModelRequest)
        ensures
            views(r.system_parts@) == self@.system_lines,
            turn_views(r.contents@) == self@.ledger,
    {
        let system_parts = clone_strings(&self.system_lines);
        let src = self.ledger.iterate();
        let n = src.len();
        let mut contents: Vec<Turn> = Vec::new();
        let mut i: usize = 0;
        while i < n
            invariant
                n == src@.len(),
                i <= n,
                turn_views(contents@) == turn_views(src@).subrange(0, i as int),
            decreases n - i,
        {
            let ghost pre = contents@;
            contents.push(src[i].clone());
            proof {
                assert(turn_views(contents@) =~= turn_views(pre).push(contents@.last()@));
                assert(turn_views(contents@) =~= turn_views(src@).subrange(0, i + 1));
            }
            i = i + 1;
        }
        proof {
            assert(turn_views(src@).subrange(0, n as int) =~= turn_views(src@));
        }
        ModelRequest { system_parts, contents }
    }

    /// Records a successful model reply: every text part becomes one model
    /// turn appended to the ledger, in order; non-text parts are silently
    /// skipped. Returns the texts, in the same order, for rendering.
    pub fn record_reply(&mut self, candidates: &Vec<Candidate>) -> (texts: Vec<String>)
        ensures
            views(texts@) == texts_of_candidates(cand_views(candidates@)),
            final(self)@ == (SessionModel {
                ledger: old(self)@.ledger + model_turns(
                    texts_of_candidates(cand_views(candidates@)),
                ),
                ..old(self)@
            }),
    {
        let ghost sess0 = self@;
        let ghost cv = cand_views(candidates@);
        let mut texts: Vec<String> = Vec::new();
        let n = candidates.len();
        let mut i: usize = 0;
        proof {
            assert(views(texts@) + cand_texts_from(cv, 0) =~= texts_of_candidates(cv));
            assert(self@.ledger =~= sess0.ledger + model_turns(views(texts@)));
        }
        while i < n
            invariant
                n == candidates@.len(),
                i <= n,
                cv == cand_views(candidates@),
                views(texts@) + cand_texts_from(cv, i as int) == texts_of_candidates(cv),
                self@ == (SessionModel {
                    ledger: sess0.ledger + model_turns(views(texts@)),
                    ..sess0
                }),
            decreases n - i,
        {
            let parts = &candidates[i].parts;
            let ghost pv = part_views(parts@);
            proof {
                assert(cv[i as int] == pv);
            }
            let m = parts.len();
            let mut j: usize = 0;
            while j < m
                invariant
                    n == candidates@.len(),
                    i < n,
                    m == parts@.len(),
                    j <= m,
                    cv == cand_views(candidates@),
                    pv == part_views(parts@),
                    cv[i as int] == pv,
                    views(texts@) + texts_from(pv, j as int) + cand_texts_from(cv, i + 1)
                        == texts_of_candidates(cv),
                    self@ == (SessionModel {
                        ledger: sess0.ledger + model_turns(views(texts@)),
                        ..sess0
                    }),
                decreases m - j,
            {
                match &parts[j] {
                    ReplyPart::Text(t) => {
                        let owned = t.clone();
                        let ghost tpre = texts@;
                        self.ledger.push(Turn { role: Role::Model, text: owned.clone() });
                        texts.push(owned);
                        proof {
                            assert(views(texts@) =~= views(tpre).push(texts@.last()@));
                            assert(model_turns(views(texts@)) =~= model_turns(views(tpre)).push(
                                TurnModel { role: Role::Model, text: texts@.last()@ },
                            ));
                            assert(self@.ledger =~= sess0.ledger + model_turns(views(texts@)));
                            assert(views(texts@) + texts_from(pv, j + 1) =~= views(tpre)
                                + texts_from(pv, j as int));
                        }
                    },
                    ReplyPart::Other => {
                        proof {
                            assert(texts_from(pv, j as int) == texts_from(pv, j + 1));
                        }
                    },
                }
                j = j + 1;
            }
            proof {
                assert(views(texts@) + cand_texts_from(cv, i + 1) =~= texts_of_candidates(cv));
            }
            i = i + 1;
        }
        texts
    }
}

/// The ledger after a run of prompt/reply cycles: each cycle is one user
/// turn carrying the prompt, answered by one model turn carrying the reply.
pub open spec fn cycle_ledger(pairs: Seq<(Seq<char>, Seq<char>)>) -> Seq<TurnModel>
    decreases pairs.len(),
{
    if pairs.len() == 0 {
        Seq::empty()
    } else {
        cycle_ledger(pairs.drop_last()) + seq![
            TurnModel { role: Role::User, text: pairs.last().0 },
            TurnModel { role: Role::Model, text: pairs.last().1 },
        ]
    }
}

/// History-ledger law: after any number of prompt commands, each answered
/// by a reply with exactly one text part, the ledger holds exactly twice
/// as many turns, in strict alternating user/model order, carrying each
/// prompt and its reply in sequence.
pub proof fn lemma_ledger_alternation(pairs: Seq<(Seq<char>, Seq<char>)>)
    ensures
        cycle_ledger(pairs).len() == 2 * pairs.len(),
        forall|i: int|
            0 <= i < pairs.len() ==> cycle_ledger(pairs)[2 * i] == (TurnModel {
                role: Role::User,
                text: (#[trigger] pairs[i]).0,
            }) && cycle_ledger(pairs)[2 * i + 1] == (TurnModel {
                role: Role::Model,
                text: pairs[i].1,
            }),
    decreases pairs.len(),
{
    if pairs.len() > 0 {
        let p2 = pairs.drop_last();
        lemma_ledger_alternation(p2);
        assert forall|i: int| 0 <= i < pairs.len() implies cycle_ledger(pairs)[2 * i]
            == (TurnModel { role: Role::User, text: (#[trigger] pairs[i]).0 }) && cycle_ledger(
            pairs,
        )[2 * i + 1] == (TurnModel { role: Role::Model, text: pairs[i].1 }) by {
            if i < pairs.len() - 1 {
                assert(p2[i] == pairs[i]);
                assert(cycle_ledger(pairs)[2 * i] == cycle_ledger(p2)[2 * i]);
                assert(cycle_ledger(pairs)[2 * i + 1] == cycle_ledger(p2)[2 * i + 1]);
            }
        }
    }
}

/// One more cycle extends the ledger by exactly one user turn and one
/// model turn: what `dispatch_line` appends on a prompt, followed by what
/// `record_reply` appends for a single-text reply.
pub proof fn lemma_cycle_step(
    pairs: Seq<(Seq<char>, Seq<char>)>,
    prompt: Seq<char>,
    reply: Seq<char>,
)
    ensures
        cycle_ledger(pairs.push((prompt, reply))) == cycle_ledger(pairs).push(
            TurnModel { role: Role::User, text: prompt },
        ).push(TurnModel { role: Role::Model, text: reply }),
{
    assert(pairs.push((prompt, reply)).drop_last() =~= pairs);
    assert(cycle_ledger(pairs.push((prompt, reply))) =~= cycle_ledger(pairs).push(
        TurnModel { role: Role::User, text: prompt },
    ).push(TurnModel { role: Role::Model, text: reply }));
}

} // verus!
