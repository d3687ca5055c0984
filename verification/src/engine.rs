//! The protocol dispatch loop as a state machine. The engine consumes one
//! input line at a time and answers with the action the driver must run:
//! print the advertisement, run a backend operation, read another line, or
//! finish. Batched `fetch`/`push` lines accumulate inside the engine until
//! a blank line closes the batch. Every transition is pinned down by
//! [`step_spec`].
use crate::caps::{advertised_lines, capability_lines, kw_capabilities, kw_fetch, kw_list,
    kw_list_for_push, kw_push, Capabilities};
use crate::errors::{OpKind, ProtoError};
use crate::model::{FetchModel, FetchObject, PushModel, PushObject};
use crate::parse::{parse_fetch_line, parse_fetch_spec, parse_push_line, parse_push_spec};
use crate::text::{lemma_tokens_single, lemma_tokens_split, lemma_tokens_trimmed, tokenize,
    tokens_of, trim, trimmed};
use vstd::prelude::*;

verus! {

/// Where the session stands: awaiting the greeting, dispatching commands,
/// inside a batch, or done.
pub enum ProtoState {
    AwaitGreeting,
    Idle,
    FetchBatch(Vec<FetchObject>),
    PushBatch(Vec<PushObject>),
    Finished,
}

/// Specification-level value of a [`ProtoState`].
#[verifier::ext_equal]
pub enum StateModel {
    AwaitGreeting,
    Idle,
    FetchBatch(Seq<FetchModel>),
    PushBatch(Seq<PushModel>),
    Finished,
}

impl View for ProtoState {
    type V = StateModel;

    open spec fn view(&self) -> StateModel {
        match self {
            ProtoState::AwaitGreeting => StateModel::AwaitGreeting,
            ProtoState::Idle => StateModel::Idle,
            ProtoState::FetchBatch(objs) => StateModel::FetchBatch(objs.deep_view()),
            ProtoState::PushBatch(objs) => StateModel::PushBatch(objs.deep_view()),
            ProtoState::Finished => StateModel::Finished,
        }
    }
}

/// What the driver must do after one step: print the advertisement lines
/// (each followed by a newline, then one blank line), run a backend
/// operation and print its completion, read another line, or stop.
pub enum Action {
    Advertise(Vec<String>),
    RunList,
    RunListForPush,
    RunFetch(Vec<FetchObject>),
    RunPush(Vec<PushObject>),
    ReadMore,
    Finish,
}

/// Specification-level value of an [`Action`].
#[verifier::ext_equal]
pub enum ActionModel {
    Advertise(Seq<Seq<char>>),
    RunList,
    RunListForPush,
    RunFetch(Seq<FetchModel>),
    RunPush(Seq<PushModel>),
    ReadMore,
    Finish,
}

impl View for Action {
    type V = ActionModel;

    open spec fn view(&self) -> ActionModel {
        match self {
            Action::Advertise(lines) => ActionModel::Advertise(lines.deep_view()),
            Action::RunList => ActionModel::RunList,
            Action::RunListForPush => ActionModel::RunListForPush,
            Action::RunFetch(objs) => ActionModel::RunFetch(objs.deep_view()),
            Action::RunPush(objs) => ActionModel::RunPush(objs.deep_view()),
            Action::ReadMore => ActionModel::ReadMore,
            Action::Finish => ActionModel::Finish,
        }
    }
}

/// The protocol engine: the backend's capability set, the object-store
/// root that fetch paths are derived from, and the session state.
pub struct Engine {
    caps: Capabilities,
    object_root: String,
    state: ProtoState,
}

/// Specification-level value of an [`Engine`].
#[verifier::ext_equal]
pub struct EngineModel {
    pub caps: Capabilities,
    pub root: Seq<char>,
    pub state: StateModel,
}

impl View for Engine {
    type V = EngineModel;

    closed spec fn view(&self) -> EngineModel {
        EngineModel { caps: self.caps, root: self.object_root@, state: self.state@ }
    }
}

/// The first line of a session: exactly `capabilities` (trimmed) answers
/// with the advertisement; anything else is fatal.
pub open spec fn greeting_spec(m: EngineModel, l: Seq<char>) -> Result<
    (StateModel, ActionModel),
    ProtoError,
> {
    if trimmed(l) == kw_capabilities() {
        Ok((StateModel::Idle, ActionModel::Advertise(advertised_lines(m.caps))))
    } else {
        Err(ProtoError::BadGreeting)
    }
}

/// A command line read while idle: `list` and `list for-push` run at once
/// (or fail at once on a backend without the capability); a `fetch` or
/// `push` line opens a batch; any other line ends the session gracefully.
pub open spec fn dispatch_spec(m: EngineModel, l: Seq<char>) -> Result<
    (StateModel, ActionModel),
    ProtoError,
> {
    let t = trimmed(l);
    let toks = tokens_of(l);
    if t == kw_list() {
        if m.caps.list {
            Ok((StateModel::Idle, ActionModel::RunList))
        } else {
            Err(ProtoError::Unsupported(OpKind::List))
        }
    } else if t == kw_list_for_push() {
        if m.caps.list_for_push {
            Ok((StateModel::Idle, ActionModel::RunListForPush))
        } else {
            Err(ProtoError::Unsupported(OpKind::ListForPush))
        }
    } else if toks.len() > 0 && toks[0] == kw_fetch() {
        match parse_fetch_spec(l, m.root) {
            Ok(fo) => Ok((StateModel::FetchBatch(seq![fo]), ActionModel::ReadMore)),
            Err(e) => Err(e),
        }
    } else if toks.len() > 0 && toks[0] == kw_push() {
        match parse_push_spec(l) {
            Ok(po) => Ok((StateModel::PushBatch(seq![po]), ActionModel::ReadMore)),
            Err(e) => Err(e),
        }
    } else {
        Ok((StateModel::Finished, ActionModel::Finish))
    }
}

/// A line read inside a `fetch` batch: blank closes the batch and hands the
/// collected objects to the backend (a backend without the capability fails
/// here, after the batch was parsed, and never runs it); another `fetch`
/// line extends the batch; anything else is fatal.
pub open spec fn fetch_batch_spec(
    m: EngineModel,
    objs: Seq<FetchModel>,
    l: Seq<char>,
) -> Result<(StateModel, ActionModel), ProtoError> {
    let toks = tokens_of(l);
    if toks.len() == 0 {
        if m.caps.fetch {
            Ok((StateModel::Idle, ActionModel::RunFetch(objs)))
        } else {
            Err(ProtoError::Unsupported(OpKind::Fetch))
        }
    } else if toks[0] == kw_fetch() {
        match parse_fetch_spec(l, m.root) {
            Ok(fo) => Ok((StateModel::FetchBatch(objs.push(fo)), ActionModel::ReadMore)),
            Err(e) => Err(e),
        }
    } else {
        Err(ProtoError::UnexpectedCommand)
    }
}

/// A line read inside a `push` batch: blank closes the batch, another
/// `push` line extends it, anything else is fatal.
pub open spec fn push_batch_spec(
    m: EngineModel,
    objs: Seq<PushModel>,
    l: Seq<char>,
) -> Result<(StateModel, ActionModel), ProtoError> {
    let toks = tokens_of(l);
    if toks.len() == 0 {
        if m.caps.push {
            Ok((StateModel::Idle, ActionModel::RunPush(objs)))
        } else {
            Err(ProtoError::Unsupported(OpKind::Push))
        }
    } else if toks[0] == kw_push() {
        match parse_push_spec(l) {
            Ok(po) => Ok((StateModel::PushBatch(objs.push(po)), ActionModel::ReadMore)),
            Err(e) => Err(e),
        }
    } else {
        Err(ProtoError::UnexpectedCommand)
    }
}

/// One transition of the protocol: `line` is the next input line, or
/// nothing if the read failed, which is fatal in every state. The result is
/// the new session state and the driver's action, or the fatal error.
pub open spec fn step_spec(m: EngineModel, line: Option<Seq<char>>) -> Result<
    (StateModel, ActionModel),
    ProtoError,
> {
    match line {
        Option::None => Err(ProtoError::UnexpectedEnd),
        Option::Some(l) => match m.state {
            StateModel::AwaitGreeting => greeting_spec(m, l),
            StateModel::Idle => dispatch_spec(m, l),
            StateModel::FetchBatch(objs) => fetch_batch_spec(m, objs, l),
            StateModel::PushBatch(objs) => push_batch_spec(m, objs, l),
            StateModel::Finished => Ok((StateModel::Finished, ActionModel::Finish)),
        },
    }
}

/// The contract one call of [`Engine::step`] meets: on a defined transition
/// the returned action and the new state follow [`step_spec`]; on an error
/// the engine is dead and the error is returned. The capability set and the
/// object-store root never change.
pub open spec fn step_post(
    pre: EngineModel,
    post: EngineModel,
    line: Option<Seq<char>>,
    r: Result<Action, ProtoError>,
) -> bool {
    match step_spec(pre, line) {
        Ok((st, act)) => r is Ok && r->Ok_0@ == act && post == (EngineModel {
            caps: pre.caps,
            root: pre.root,
            state: st,
        }),
        Err(e) => r is Err && r->Err_0 == e && post == (EngineModel {
            caps: pre.caps,
            root: pre.root,
            state: StateModel::Finished,
        }),
    }
}

impl Engine {
    /// A fresh session for a backend with capability set `caps`, deriving
    /// fetch paths under `object_root`.
    pub fn new(caps: Capabilities, object_root: String) -> (r: Engine)
        ensures
            r@ == (EngineModel {
                caps,
                root: object_root@,
                state: StateModel::AwaitGreeting,
            }),
    {
        Engine { caps, object_root, state: ProtoState::AwaitGreeting }
    }

    /// Feeds the engine the next input line (or the failure to read one)
    /// and returns what the driver must do next.
    pub fn step(&mut self, line: Option<&str>) -> (r: Result<Action, ProtoError>)
        ensures
            step_post(
                old(self)@,
                final(self)@,
                match line {
                    Option::Some(l) => Option::Some(l@),
                    Option::None => Option::None,
                },
                r,
            ),
    {
        let l = match line {
            Option::Some(l) => l,
            Option::None => {
                self.state = ProtoState::Finished;
                return Err(ProtoError::UnexpectedEnd);
            },
        };
        let kind: u8 = match &self.state {
            ProtoState::AwaitGreeting => 0,
            ProtoState::Idle => 1,
            ProtoState::FetchBatch(_) => 2,
            ProtoState::PushBatch(_) => 3,
            ProtoState::Finished => 4,
        };
        if kind == 0 {
            self.greet(l)
        } else if kind == 1 {
            self.dispatch(l)
        } else if kind == 2 {
            self.fetch_batch_line(l)
        } else if kind == 3 {
            self.push_batch_line(l)
        } else {
            Ok(Action::Finish)
        }
    }

    /// Handles the greeting line.
    fn greet(&mut self, l: &str) -> (r: Result<Action, ProtoError>)
        requires
            old(self)@.state is AwaitGreeting,
        ensures
            step_post(old(self)@, final(self)@, Option::Some(l@), r),
    {
        let t = trim(l);
        proof {
            reveal_strlit("capabilities");
            assert("capabilities"@ =~= kw_capabilities());
        }
        if t == String::from_str("capabilities") {
            self.state = ProtoState::Idle;
            Ok(Action::Advertise(capability_lines(&self.caps)))
        } else {
            self.state = ProtoState::Finished;
            Err(ProtoError::BadGreeting)
        }
    }

    /// Handles one command line while idle.
    fn dispatch(&mut self, l: &str) -> (r: Result<Action, ProtoError>)
        requires
            old(self)@.state is Idle,
        ensures
            step_post(old(self)@, final(self)@, Option::Some(l@), r),
    {
        proof {
            reveal_strlit("list");
            reveal_strlit("list for-push");
            reveal_strlit("fetch");
            reveal_strlit("push");
            assert("list"@ =~= kw_list());
            assert("list for-push"@ =~= kw_list_for_push());
            assert("fetch"@ =~= kw_fetch());
            assert("push"@ =~= kw_push());
        }
        let t = trim(l);
        if t == String::from_str("list") {
            if self.caps.list {
                Ok(Action::RunList)
            } else {
                self.state = ProtoState::Finished;
                Err(ProtoError::Unsupported(OpKind::List))
            }
        } else if t == String::from_str("list for-push") {
            if self.caps.list_for_push {
                Ok(Action::RunListForPush)
            } else {
                self.state = ProtoState::Finished;
                Err(ProtoError::Unsupported(OpKind::ListForPush))
            }
        } else {
            let toks = tokenize(l);
            proof {
                if toks@.len() > 0 {
                    assert(toks.deep_view()[0] == toks@[0]@);
                }
            }
            if toks.len() > 0 && toks[0].eq(&String::from_str("fetch")) {
                match parse_fetch_line(l, self.object_root.as_str()) {
                    Ok(fo) => {
                        let ghost fov = fo@;
                        self.state = ProtoState::FetchBatch(vec![fo]);
                        proof {
                            assert(self@.state->FetchBatch_0 =~= seq![fov]);
                        }
                        Ok(Action::ReadMore)
                    },
                    Err(e) => {
                        self.state = ProtoState::Finished;
                        Err(e)
                    },
                }
            } else if toks.len() > 0 && toks[0].eq(&String::from_str("push")) {
                match parse_push_line(l) {
                    Ok(po) => {
                        let ghost pov = po@;
                        self.state = ProtoState::PushBatch(vec![po]);
                        proof {
                            assert(self@.state->PushBatch_0 =~= seq![pov]);
                        }
                        Ok(Action::ReadMore)
                    },
                    Err(e) => {
                        self.state = ProtoState::Finished;
                        Err(e)
                    },
                }
            } else {
                self.state = ProtoState::Finished;
                Ok(Action::Finish)
            }
        }
    }

    /// Handles one line inside a `fetch` batch.
    fn fetch_batch_line(&mut self, l: &str) -> (r: Result<Action, ProtoError>)
        requires
            old(self)@.state is FetchBatch,
        ensures
            step_post(old(self)@, final(self)@, Option::Some(l@), r),
    {
        proof {
            reveal_strlit("fetch");
            assert("fetch"@ =~= kw_fetch());
        }
        let toks = tokenize(l);
        proof {
            if toks@.len() > 0 {
                assert(toks.deep_view()[0] == toks@[0]@);
            }
        }
        if toks.len() == 0 {
            if self.caps.fetch {
                let mut st = ProtoState::Idle;
                core::mem::swap(&mut st, &mut self.state);
                match st {
                    ProtoState::FetchBatch(objs) => Ok(Action::RunFetch(objs)),
                    _ => {
                        proof {
                            assert(false);
                        }
                        Err(ProtoError::UnexpectedCommand)
                    },
                }
            } else {
                self.state = ProtoState::Finished;
                Err(ProtoError::Unsupported(OpKind::Fetch))
            }
        } else if toks[0].eq(&String::from_str("fetch")) {
            match parse_fetch_line(l, self.object_root.as_str()) {
                Ok(fo) => {
                    let ghost fov = fo@;
                    let ghost pre = self@.state->FetchBatch_0;
                    match &mut self.state {
                        ProtoState::FetchBatch(objs) => {
                            objs.push(fo);
                            proof {
                                assert(objs.deep_view() =~= pre.push(fov));
                            }
                        },
                        _ => {},
                    }
                    Ok(Action::ReadMore)
                },
                Err(e) => {
                    self.state = ProtoState::Finished;
                    Err(e)
                },
            }
        } else {
            self.state = ProtoState::Finished;
            Err(ProtoError::UnexpectedCommand)
        }
    }

    /// Handles one line inside a `push` batch.
    fn push_batch_line(&mut self, l: &str) -> (r: Result<Action, ProtoError>)
        requires
            old(self)@.state is PushBatch,
        ensures
            step_post(old(self)@, final(self)@, Option::Some(l@), r),
    {
        proof {
            reveal_strlit("push");
            assert("push"@ =~= kw_push());
        }
        let toks = tokenize(l);
        proof {
            if toks@.len() > 0 {
                assert(toks.deep_view()[0] == toks@[0]@);
            }
        }
        if toks.len() == 0 {
            if self.caps.push {
                let mut st = ProtoState::Idle;
                core::mem::swap(&mut st, &mut self.state);
                match st {
                    ProtoState::PushBatch(objs) => Ok(Action::RunPush(objs)),
                    _ => {
                        proof {
                            assert(false);
                        }
                        Err(ProtoError::UnexpectedCommand)
                    },
                }
            } else {
                self.state = ProtoState::Finished;
                Err(ProtoError::Unsupported(OpKind::Push))
            }
        } else if toks[0].eq(&String::from_str("push")) {
            match parse_push_line(l) {
                Ok(po) => {
                    let ghost pov = po@;
                    let ghost pre = self@.state->PushBatch_0;
                    match &mut self.state {
                        ProtoState::PushBatch(objs) => {
                            objs.push(po);
                            proof {
                                assert(objs.deep_view() =~= pre.push(pov));
                            }
                        },
                        _ => {},
                    }
                    Ok(Action::ReadMore)
                },
                Err(e) => {
                    self.state = ProtoState::Finished;
                    Err(e)
                },
            }
        } else {
            self.state = ProtoState::Finished;
            Err(ProtoError::UnexpectedCommand)
        }
    }
}

/// Iterated stepping: feed `lines` one after another from `m`, collecting
/// the action of every step, or stop at the first fatal error. The driver
/// behaves exactly like this, except that it runs each action before
/// reading on.
pub open spec fn drive(m: EngineModel, lines: Seq<Seq<char>>) -> Result<
    (StateModel, Seq<ActionModel>),
    ProtoError,
> {
    drive_from(m.caps, m.root, m.state, lines)
}

/// Helper for [`drive`]: recursion over the remaining lines.
pub open spec fn drive_from(
    caps: Capabilities,
    root: Seq<char>,
    st: StateModel,
    lines: Seq<Seq<char>>,
) -> Result<(StateModel, Seq<ActionModel>), ProtoError>
    decreases lines.len(),
{
    if lines.len() == 0 {
        Ok((st, Seq::empty()))
    } else {
        match step_spec(EngineModel { caps, root, state: st }, Option::Some(lines[0])) {
            Ok((st2, act)) => match drive_from(caps, root, st2, lines.drop_first()) {
                Ok((fin, acts)) => Ok((fin, seq![act] + acts)),
                Err(e) => Err(e),
            },
            Err(e) => Err(e),
        }
    }
}

/// The actions of one whole batch: one read per batch line, then the single
/// invocation that closes it.
pub open spec fn batch_actions(n: nat, done: ActionModel) -> Seq<ActionModel> {
    Seq::new(n, |i: int| ActionModel::ReadMore).push(done)
}

/// Every line of `ls` is a well-formed `fetch` line.
pub open spec fn fetch_lines_ok(root: Seq<char>, ls: Seq<Seq<char>>) -> bool {
    forall|i: int|
        0 <= i < ls.len() ==> tokens_of(ls[i]).len() > 0 && tokens_of(ls[i])[0] == kw_fetch()
            && parse_fetch_spec(ls[i], root) is Ok
}

/// What the lines of a well-formed `fetch` batch parse to, in input order.
pub open spec fn parsed_fetches(root: Seq<char>, ls: Seq<Seq<char>>) -> Seq<FetchModel> {
    ls.map_values(|l: Seq<char>| parse_fetch_spec(l, root)->Ok_0)
}

/// Every line of `ls` is a well-formed `push` line.
pub open spec fn push_lines_ok(ls: Seq<Seq<char>>) -> bool {
    forall|i: int|
        0 <= i < ls.len() ==> tokens_of(ls[i]).len() > 0 && tokens_of(ls[i])[0] == kw_push()
            && parse_push_spec(ls[i]) is Ok
}

/// What the lines of a well-formed `push` batch parse to, in input order.
pub open spec fn parsed_pushes(ls: Seq<Seq<char>>) -> Seq<PushModel> {
    ls.map_values(|l: Seq<char>| parse_push_spec(l)->Ok_0)
}

/// A line whose first token is `fetch` or `push` is, trimmed, neither the
/// `list` nor the `list for-push` command.
proof fn lemma_first_token_not_list(l: Seq<char>)
    requires
        tokens_of(l).len() > 0,
        tokens_of(l)[0] == kw_fetch() || tokens_of(l)[0] == kw_push(),
    ensures
        trimmed(l) != kw_list(),
        trimmed(l) != kw_list_for_push(),
{
    lemma_tokens_trimmed(l);
    if trimmed(l) == kw_list() {
        lemma_tokens_single(kw_list());
        assert(tokens_of(l)[0] == kw_list());
        assert(kw_list()[0] == 'l' && kw_fetch()[0] == 'f' && kw_push()[0] == 'p');
    }
    if trimmed(l) == kw_list_for_push() {
        lemma_tokens_split(kw_list_for_push(), 4);
        assert(tokens_of(l)[0] == kw_list_for_push().take(4));
        assert(kw_list_for_push().take(4)[0] == 'l');
    }
}

/// Feeding well-formed `fetch` lines into an open batch and closing it with
/// a blank line appends every parsed object in order and runs the fetch
/// exactly once.
proof fn lemma_fetch_feed(
    caps: Capabilities,
    root: Seq<char>,
    objs: Seq<FetchModel>,
    ls: Seq<Seq<char>>,
    end: Seq<char>,
)
    requires
        caps.fetch,
        fetch_lines_ok(root, ls),
        tokens_of(end).len() == 0,
    ensures
        drive_from(caps, root, StateModel::FetchBatch(objs), ls + seq![end]) == Ok::<
            (StateModel, Seq<ActionModel>),
            ProtoError,
        >(
            (
                StateModel::Idle,
                batch_actions(ls.len(), ActionModel::RunFetch(objs + parsed_fetches(root, ls))),
            ),
        ),
    decreases ls.len(),
{
    let lines = ls + seq![end];
    if ls.len() == 0 {
        assert(lines[0] == end);
        assert(lines.drop_first() =~= Seq::<Seq<char>>::empty());
        assert(drive_from(caps, root, StateModel::Idle, lines.drop_first()) == Ok::<
            (StateModel, Seq<ActionModel>),
            ProtoError,
        >((StateModel::Idle, Seq::<ActionModel>::empty())));
        assert(objs + parsed_fetches(root, ls) =~= objs);
        assert(seq![ActionModel::RunFetch(objs)] + Seq::<ActionModel>::empty() =~= batch_actions(
            0,
            ActionModel::RunFetch(objs + parsed_fetches(root, ls)),
        ));
    } else {
        assert(lines[0] == ls[0]);
        let fo0 = parse_fetch_spec(ls[0], root)->Ok_0;
        assert(fetch_lines_ok(root, ls.drop_first())) by {
            assert forall|i: int| 0 <= i < ls.drop_first().len() implies tokens_of(
                ls.drop_first()[i],
            ).len() > 0 && tokens_of(ls.drop_first()[i])[0] == kw_fetch() && parse_fetch_spec(
                ls.drop_first()[i],
                root,
            ) is Ok by {
                assert(ls.drop_first()[i] == ls[i + 1]);
            }
        }
        lemma_fetch_feed(caps, root, objs.push(fo0), ls.drop_first(), end);
        assert(lines.drop_first() =~= ls.drop_first() + seq![end]);
        assert(objs.push(fo0) + parsed_fetches(root, ls.drop_first()) =~= objs + parsed_fetches(
            root,
            ls,
        )) by {
            assert forall|i: int|
                0 <= i < ls.len() implies (objs + parsed_fetches(root, ls))[objs.len() + i]
                == parse_fetch_spec(ls[i], root)->Ok_0 by {}
            assert forall|i: int|
                0 <= i < ls.drop_first().len() implies parsed_fetches(root, ls.drop_first())[i]
                == parse_fetch_spec(ls[i + 1], root)->Ok_0 by {
                assert(ls.drop_first()[i] == ls[i + 1]);
            }
        }
        let done = ActionModel::RunFetch(objs + parsed_fetches(root, ls));
        assert(seq![ActionModel::ReadMore] + batch_actions((ls.len() - 1) as nat, done) =~= batch_actions(
            ls.len(),
            done,
        ));
    }
}

/// One whole `fetch` batch, from the idle state: reading well-formed
/// `fetch` lines and a closing blank line invokes the backend's fetch
/// exactly once, with exactly the batch's objects, in input order.
pub proof fn lemma_fetch_batch_once(m: EngineModel, ls: Seq<Seq<char>>, end: Seq<char>)
    requires
        m.state is Idle,
        m.caps.fetch,
        ls.len() > 0,
        fetch_lines_ok(m.root, ls),
        tokens_of(end).len() == 0,
    ensures
        drive(m, ls + seq![end]) == Ok::<(StateModel, Seq<ActionModel>), ProtoError>(
            (
                StateModel::Idle,
                batch_actions(ls.len(), ActionModel::RunFetch(parsed_fetches(m.root, ls))),
            ),
        ),
{
    let lines = ls + seq![end];
    assert(lines[0] == ls[0]);
    lemma_first_token_not_list(ls[0]);
    let fo0 = parse_fetch_spec(ls[0], m.root)->Ok_0;
    assert(fetch_lines_ok(m.root, ls.drop_first())) by {
        assert forall|i: int| 0 <= i < ls.drop_first().len() implies tokens_of(
            ls.drop_first()[i],
        ).len() > 0 && tokens_of(ls.drop_first()[i])[0] == kw_fetch() && parse_fetch_spec(
            ls.drop_first()[i],
            m.root,
        ) is Ok by {
            assert(ls.drop_first()[i] == ls[i + 1]);
        }
    }
    lemma_fetch_feed(m.caps, m.root, seq![fo0], ls.drop_first(), end);
    assert(lines.drop_first() =~= ls.drop_first() + seq![end]);
    assert(seq![fo0] + parsed_fetches(m.root, ls.drop_first()) =~= parsed_fetches(m.root, ls)) by {
        assert forall|i: int|
            0 <= i < ls.drop_first().len() implies parsed_fetches(m.root, ls.drop_first())[i]
            == parse_fetch_spec(ls[i + 1], m.root)->Ok_0 by {
            assert(ls.drop_first()[i] == ls[i + 1]);
        }
    }
    let done = ActionModel::RunFetch(parsed_fetches(m.root, ls));
    assert(seq![ActionModel::ReadMore] + batch_actions((ls.len() - 1) as nat, done) =~= batch_actions(
        ls.len(),
        done,
    ));
}

/// A `fetch` batch line that fails to parse is fatal: whatever preceded it
/// and whatever would follow, the session ends with that parse error, and
/// no fetch is ever invoked.
pub proof fn lemma_fetch_batch_fatal(
    m: EngineModel,
    ls: Seq<Seq<char>>,
    bad: Seq<char>,
    rest: Seq<Seq<char>>,
)
    requires
        m.state is Idle,
        fetch_lines_ok(m.root, ls),
        tokens_of(bad).len() > 0,
        tokens_of(bad)[0] == kw_fetch(),
        parse_fetch_spec(bad, m.root) is Err,
    ensures
        drive(m, ls + seq![bad] + rest) == Err::<(StateModel, Seq<ActionModel>), ProtoError>(
            parse_fetch_spec(bad, m.root)->Err_0,
        ),
{
    let lines = ls + seq![bad] + rest;
    if ls.len() == 0 {
        assert(lines[0] == bad);
        lemma_first_token_not_list(bad);
    } else {
        assert(lines[0] == ls[0]);
        lemma_first_token_not_list(ls[0]);
        let fo0 = parse_fetch_spec(ls[0], m.root)->Ok_0;
        assert(fetch_lines_ok(m.root, ls.drop_first())) by {
            assert forall|i: int| 0 <= i < ls.drop_first().len() implies tokens_of(
                ls.drop_first()[i],
            ).len() > 0 && tokens_of(ls.drop_first()[i])[0] == kw_fetch() && parse_fetch_spec(
                ls.drop_first()[i],
                m.root,
            ) is Ok by {
                assert(ls.drop_first()[i] == ls[i + 1]);
            }
        }
        lemma_fetch_feed_fatal(m.caps, m.root, seq![fo0], ls.drop_first(), bad, rest);
        assert(lines.drop_first() =~= ls.drop_first() + seq![bad] + rest);
    }
}

/// Helper for [`lemma_fetch_batch_fatal`]: the same, from an open batch.
proof fn lemma_fetch_feed_fatal(
    caps: Capabilities,
    root: Seq<char>,
    objs: Seq<FetchModel>,
    ls: Seq<Seq<char>>,
    bad: Seq<char>,
    rest: Seq<Seq<char>>,
)
    requires
        fetch_lines_ok(root, ls),
        tokens_of(bad).len() > 0,
        tokens_of(bad)[0] == kw_fetch(),
        parse_fetch_spec(bad, root) is Err,
    ensures
        drive_from(caps, root, StateModel::FetchBatch(objs), ls + seq![bad] + rest) == Err::<
            (StateModel, Seq<ActionModel>),
            ProtoError,
        >(parse_fetch_spec(bad, root)->Err_0),
    decreases ls.len(),
{
    let lines = ls + seq![bad] + rest;
    if ls.len() == 0 {
        assert(lines[0] == bad);
    } else {
        assert(lines[0] == ls[0]);
        let fo0 = parse_fetch_spec(ls[0], root)->Ok_0;
        assert(fetch_lines_ok(root, ls.drop_first())) by {
            assert forall|i: int| 0 <= i < ls.drop_first().len() implies tokens_of(
                ls.drop_first()[i],
            ).len() > 0 && tokens_of(ls.drop_first()[i])[0] == kw_fetch() && parse_fetch_spec(
                ls.drop_first()[i],
                root,
            ) is Ok by {
                assert(ls.drop_first()[i] == ls[i + 1]);
            }
        }
        lemma_fetch_feed_fatal(caps, root, objs.push(fo0), ls.drop_first(), bad, rest);
        assert(lines.drop_first() =~= ls.drop_first() + seq![bad] + rest);
    }
}

/// One whole `push` batch, from the idle state: reading well-formed `push`
/// lines and a closing blank line invokes the backend's push exactly once,
/// with exactly the batch's ref-specs, in input order.
pub proof fn lemma_push_batch_once(m: EngineModel, ls: Seq<Seq<char>>, end: Seq<char>)
    requires
        m.state is Idle,
        m.caps.push,
        ls.len() > 0,
        push_lines_ok(ls),
        tokens_of(end).len() == 0,
    ensures
        drive(m, ls + seq![end]) == Ok::<(StateModel, Seq<ActionModel>), ProtoError>(
            (StateModel::Idle, batch_actions(ls.len(), ActionModel::RunPush(parsed_pushes(ls)))),
        ),
{
    let lines = ls + seq![end];
    assert(lines[0] == ls[0]);
    lemma_first_token_not_list(ls[0]);
    let po0 = parse_push_spec(ls[0])->Ok_0;
    assert(push_lines_ok(ls.drop_first())) by {
        assert forall|i: int| 0 <= i < ls.drop_first().len() implies tokens_of(
            ls.drop_first()[i],
        ).len() > 0 && tokens_of(ls.drop_first()[i])[0] == kw_push() && parse_push_spec(
            ls.drop_first()[i],
        ) is Ok by {
            assert(ls.drop_first()[i] == ls[i + 1]);
        }
    }
    lemma_push_feed(m.caps, m.root, seq![po0], ls.drop_first(), end);
    assert(lines.drop_first() =~= ls.drop_first() + seq![end]);
    assert(seq![po0] + parsed_pushes(ls.drop_first()) =~= parsed_pushes(ls)) by {
        assert forall|i: int|
            0 <= i < ls.drop_first().len() implies parsed_pushes(ls.drop_first())[i]
            == parse_push_spec(ls[i + 1])->Ok_0 by {
            assert(ls.drop_first()[i] == ls[i + 1]);
        }
    }
    let done = ActionModel::RunPush(parsed_pushes(ls));
    assert(seq![ActionModel::ReadMore] + batch_actions((ls.len() - 1) as nat, done) =~= batch_actions(
        ls.len(),
        done,
    ));
}

/// Helper for [`lemma_push_batch_once`]: the same, from an open batch.
proof fn lemma_push_feed(
    caps: Capabilities,
    root: Seq<char>,
    objs: Seq<PushModel>,
    ls: Seq<Seq<char>>,
    end: Seq<char>,
)
    requires
        caps.push,
        push_lines_ok(ls),
        tokens_of(end).len() == 0,
    ensures
        drive_from(caps, root, StateModel::PushBatch(objs), ls + seq![end]) == Ok::<
            (StateModel, Seq<ActionModel>),
            ProtoError,
        >(
            (
                StateModel::Idle,
                batch_actions(ls.len(), ActionModel::RunPush(objs + parsed_pushes(ls))),
            ),
        ),
    decreases ls.len(),
{
    let lines = ls + seq![end];
    if ls.len() == 0 {
        assert(lines[0] == end);
        assert(lines.drop_first() =~= Seq::<Seq<char>>::empty());
        assert(drive_from(caps, root, StateModel::Idle, lines.drop_first()) == Ok::<
            (StateModel, Seq<ActionModel>),
            ProtoError,
        >((StateModel::Idle, Seq::<ActionModel>::empty())));
        assert(objs + parsed_pushes(ls) =~= objs);
        assert(seq![ActionModel::RunPush(objs)] + Seq::<ActionModel>::empty() =~= batch_actions(
            0,
            ActionModel::RunPush(objs + parsed_pushes(ls)),
        ));
    } else {
        assert(lines[0] == ls[0]);
        let po0 = parse_push_spec(ls[0])->Ok_0;
        assert(push_lines_ok(ls.drop_first())) by {
            assert forall|i: int| 0 <= i < ls.drop_first().len() implies tokens_of(
                ls.drop_first()[i],
            ).len() > 0 && tokens_of(ls.drop_first()[i])[0] == kw_push() && parse_push_spec(
                ls.drop_first()[i],
            ) is Ok by {
                assert(ls.drop_first()[i] == ls[i + 1]);
            }
        }
        lemma_push_feed(caps, root, objs.push(po0), ls.drop_first(), end);
        assert(lines.drop_first() =~= ls.drop_first() + seq![end]);
        assert(objs.push(po0) + parsed_pushes(ls.drop_first()) =~= objs + parsed_pushes(ls)) by {
            assert forall|i: int|
                0 <= i < ls.drop_first().len() implies parsed_pushes(ls.drop_first())[i]
                == parse_push_spec(ls[i + 1])->Ok_0 by {
                assert(ls.drop_first()[i] == ls[i + 1]);
            }
        }
        let done = ActionModel::RunPush(objs + parsed_pushes(ls));
        assert(seq![ActionModel::ReadMore] + batch_actions((ls.len() - 1) as nat, done) =~= batch_actions(
            ls.len(),
            done,
        ));
    }
}

} // verus!
