//! The entry points: initialisation, and the two requests that a store
//! carries out.

use vstd::prelude::*;
use crate::error::ContractError;
use crate::msg::{ExecuteMsg, InstantiateMsg, MessageInfo, Response};
use crate::state::labels_view;
use crate::store::{Store, StoreView};

verus! {

/// Who becomes administrator: the one that the request names, else the
/// sender.
pub open spec fn administrator(sender: Seq<char>, named: Option<Seq<char>>) -> Seq<char> {
    match named {
        Some(admin) => admin,
        None => sender,
    }
}

/// What the request names as administrator.
pub open spec fn named_admin(msg: InstantiateMsg) -> Option<Seq<char>> {
    match msg.admin {
        Some(admin) => Some(admin@),
        None => None,
    }
}

/// The answer to an initialisation that made `admin` the administrator.
pub open spec fn instantiated(admin: Seq<char>) -> Seq<(Seq<char>, Seq<char>)> {
    seq![("action"@, "instantiate"@), ("admin"@, admin)]
}

/// The answer to the creation of the poll `poll_id`.
pub open spec fn poll_created_reply(poll_id: Seq<char>) -> Seq<(Seq<char>, Seq<char>)> {
    seq![("action"@, "create_poll"@), ("poll_id"@, poll_id)]
}

/// The answer to a vote for `option` in the poll `poll_id`.
pub open spec fn vote_cast_reply(poll_id: Seq<char>, option: Seq<char>) -> Seq<
    (Seq<char>, Seq<char>),
> {
    seq![("action"@, "cast_vote"@), ("poll_id"@, poll_id), ("option"@, option)]
}

/// Whether `reply` and `after` are what a request makes of the store
/// `before`, where `outcome` is the store that the request leads to or the
/// reason for refusing it, and `answer` what it answers when carried out: a
/// request that is carried out answers and leaves the new store; one that
/// is refused leaves the store as it was.
pub open spec fn carried_out(
    before: StoreView,
    outcome: Result<StoreView, ContractError>,
    answer: Seq<(Seq<char>, Seq<char>)>,
    after: StoreView,
    reply: Result<Response, ContractError>,
) -> bool {
    match outcome {
        Ok(next) => after == next && (reply matches Ok(response) && response@ == answer),
        Err(e) => after == before && (reply matches Err(refusal) && refusal == e),
    }
}

/// Answers an initialisation that made `admin` the administrator.
pub fn instantiate_response(admin: &str) -> (response: Response)
    ensures
        response@ == instantiated(admin@),
{
    let response = Response::new().add_attribute("action", "instantiate").add_attribute(
        "admin",
        admin,
    );
    assert(response@ =~= instantiated(admin@));
    response
}

/// Answers the creation of the poll `poll_id`.
pub fn create_poll_response(poll_id: &str) -> (response: Response)
    ensures
        response@ == poll_created_reply(poll_id@),
{
    let response = Response::new().add_attribute("action", "create_poll").add_attribute(
        "poll_id",
        poll_id,
    );
    assert(response@ =~= poll_created_reply(poll_id@));
    response
}

/// Answers a vote for `option` in the poll `poll_id`.
pub fn vote_response(poll_id: &str, option: &str) -> (response: Response)
    ensures
        response@ == vote_cast_reply(poll_id@, option@),
{
    let response = Response::new().add_attribute("action", "cast_vote").add_attribute(
        "poll_id",
        poll_id,
    ).add_attribute("option", option);
    assert(response@ =~= vote_cast_reply(poll_id@, option@));
    response
}

/// The administrator that an initialisation by `info.sender` with `msg`
/// records: the one that `msg` names, else the sender.
pub fn resolve_admin(info: &MessageInfo, msg: &InstantiateMsg) -> (admin: String)
    ensures
        admin@ == administrator(info.sender@, named_admin(*msg)),
{
    match &msg.admin {
        Some(admin) => admin.clone(),
        None => info.sender.clone(),
    }
}

/// Initialises the store: records the administrator, which is the one
/// that `msg` names, else the sender, and answers with the action and the
/// administrator. Polls and ballots stay as they are.
pub fn instantiate(store: &mut Store, info: MessageInfo, msg: InstantiateMsg) -> (reply: Result<
    Response,
    ContractError,
>)
    requires
        old(store).wf(),
    ensures
        final(store).wf(),
        final(store)@ == old(store)@.instantiate(administrator(info.sender@, named_admin(msg))),
        reply matches Ok(response) && response@ == instantiated(
            administrator(info.sender@, named_admin(msg)),
        ),
{
    let admin = resolve_admin(&info, &msg);
    let response = instantiate_response(admin.as_str());
    store.instantiate(admin);
    Ok(response)
}

/// Creates the poll `poll_id` for the sender, with one option per label in
/// the order given and every tally at zero, and answers with the action
/// and the identifier. With more than ten options it fails with
/// `TooManyOptions`, under an identifier that is taken with
/// `PollAlreadyExists`; the store then stays as it is.
pub fn execute_create_poll(
    store: &mut Store,
    info: MessageInfo,
    poll_id: String,
    question: String,
    options: Vec<String>,
) -> (reply: Result<Response, ContractError>)
    requires
        old(store).wf(),
    ensures
        final(store).wf(),
        carried_out(
            old(store)@,
            old(store)@.create_poll(poll_id@, info.sender@, question@, labels_view(options@)),
            poll_created_reply(poll_id@),
            final(store)@,
            reply,
        ),
{
    let response = create_poll_response(poll_id.as_str());
    match store.create_poll(poll_id, info.sender, question, options) {
        Ok(()) => Ok(response),
        Err(e) => Err(e),
    }
}

/// Casts the sender's vote for `vote` in the poll `poll_id`, and answers
/// with the action, the poll and the option. Without such a poll it fails
/// with `PollNotFound`, for a label that the poll does not list with
/// `InvalidOption`; the store then stays as it is.
pub fn execute_vote(store: &mut Store, info: MessageInfo, poll_id: String, vote: String) -> (reply:
    Result<Response, ContractError>)
    requires
        old(store).wf(),
    ensures
        final(store).wf(),
        carried_out(
            old(store)@,
            old(store)@.cast_vote(info.sender@, poll_id@, vote@),
            vote_cast_reply(poll_id@, vote@),
            final(store)@,
            reply,
        ),
{
    match store.cast_vote(&info.sender, &poll_id, &vote) {
        Ok(()) => Ok(vote_response(poll_id.as_str(), vote.as_str())),
        Err(e) => Err(e),
    }
}

/// What `msg`, sent by `sender`, makes of the store `before`: the store
/// that it leads to, or the reason for refusing it.
pub open spec fn outcome(before: StoreView, sender: Seq<char>, msg: ExecuteMsg) -> Result<
    StoreView,
    ContractError,
> {
    match msg {
        ExecuteMsg::CreatePoll { poll_id, question, options } => before.create_poll(
            poll_id@,
            sender,
            question@,
            labels_view(options@),
        ),
        ExecuteMsg::Vote { poll_id, vote } => before.cast_vote(sender, poll_id@, vote@),
    }
}

/// What `msg` answers when it is carried out.
pub open spec fn answer(msg: ExecuteMsg) -> Seq<(Seq<char>, Seq<char>)> {
    match msg {
        ExecuteMsg::CreatePoll { poll_id, question, options } => poll_created_reply(poll_id@),
        ExecuteMsg::Vote { poll_id, vote } => vote_cast_reply(poll_id@, vote@),
    }
}

/// Carries out a request: creates a poll or casts a vote for the sender.
pub fn execute(store: &mut Store, info: MessageInfo, msg: ExecuteMsg) -> (reply: Result<
    Response,
    ContractError,
>)
    requires
        old(store).wf(),
    ensures
        final(store).wf(),
        carried_out(
            old(store)@,
            outcome(old(store)@, info.sender@, msg),
            answer(msg),
            final(store)@,
            reply,
        ),
{
    match msg {
        ExecuteMsg::CreatePoll { poll_id, question, options } => execute_create_poll(
            store,
            info,
            poll_id,
            question,
            options,
        ),
        ExecuteMsg::Vote { poll_id, vote } => execute_vote(store, info, poll_id, vote),
    }
}

} // verus!
