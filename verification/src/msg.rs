//! What the operations are asked and what they answer.

use vstd::prelude::*;

verus! {

/// Who sent a request.
#[derive(Debug, Clone, PartialEq, Eq)]
pub struct MessageInfo {
    pub sender: String,
}

/// The request to initialise: the administrator, or nobody, which makes
/// the sender the administrator.
#[derive(Debug, Clone, PartialEq, Eq)]
pub struct InstantiateMsg {
    pub admin: Option<String>,
}

/// A request to create a poll or to vote in one.
#[derive(Debug, Clone, PartialEq, Eq)]
pub enum ExecuteMsg {
    CreatePoll { poll_id: String, question: String, options: Vec<String> },
    Vote { poll_id: String, vote: String },
}

/// A named value that an answer carries.
#[derive(Debug, Clone, PartialEq, Eq)]
pub struct Attribute {
    pub key: String,
    pub value: String,
}

/// The answer to a request that was carried out: its attributes, in the
/// order they were added.
#[derive(Debug, Clone, PartialEq, Eq)]
pub struct Response {
    pub attributes: Vec<Attribute>,
}

impl View for Attribute {
    type V = (Seq<char>, Seq<char>);

    /// An attribute is the pair of its key and its value.
    open spec fn view(&self) -> (Seq<char>, Seq<char>) {
        (self.key@, self.value@)
    }
}

impl View for Response {
    type V = Seq<(Seq<char>, Seq<char>)>;

    /// A response is the sequence of its attributes.
    open spec fn view(&self) -> Seq<(Seq<char>, Seq<char>)> {
        Seq::new(self.attributes@.len(), |i: int| self.attributes@[i]@)
    }
}

/// The attribute with this key and this value.
pub fn attr(key: &str, value: &str) -> (attribute: Attribute)
    ensures
        attribute@ == (key@, value@),
{
    Attribute { key: key.to_owned(), value: value.to_owned() }
}

impl Response {
    /// The answer without attributes.
    pub fn new() -> (response: Response)
        ensures
            response@ == Seq::<(Seq<char>, Seq<char>)>::empty(),
    {
        let response = Response { attributes: Vec::new() };
        assert(response@ =~= Seq::empty());
        response
    }

    /// The answer with one attribute more, after those it has.
    pub fn add_attribute(self, key: &str, value: &str) -> (response: Response)
        ensures
            response@ == self@.push((key@, value@)),
    {
        let mut attributes = self.attributes;
        attributes.push(attr(key, value));
        let response = Response { attributes };
        assert(response@ =~= self@.push((key@, value@)));
        response
    }
}

} // verus!
