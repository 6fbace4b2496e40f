//! The decisions of the RPC server: which handler a request goes to, and
//! the status of the answer.
use crate::text::str_eq;
use vstd::prelude::*;

verus! {

/// The names under which handlers are registered. A name stands once.
pub struct HandlerTable {
    names: Vec<String>,
}

/// Where a request goes.
#[derive(Debug, Clone, Copy, PartialEq, Eq)]
pub enum Dispatch {
    /// The method is not `POST`: the answer is 400.
    BadRequest,
    /// No handler has the name: the answer is 404.
    NotFound,
    /// The handler at this index takes the request.
    Call(usize),
}

/// How the call of a handler ended.
#[derive(Debug, Clone, PartialEq, Eq)]
pub enum CallOutcome {
    /// The task of the handler did not end in order.
    Aborted,
    /// The handler failed before it could answer; the text of its error.
    Failed(String),
    /// The handler answered with this status.
    Answered(u16),
}

/// The index of the first name that is `name`.
pub open spec fn index_of(names: Seq<Seq<char>>, name: Seq<char>) -> Option<int>
    decreases names.len(),
{
    if names.len() == 0 {
        None
    } else if names[0] == name {
        Some(0)
    } else {
        match index_of(names.drop_first(), name) {
            Some(i) => Some(i + 1),
            None => None,
        }
    }
}

proof fn lemma_index_of(names: Seq<Seq<char>>, name: Seq<char>, k: int)
    requires
        0 <= k <= names.len(),
        forall|j: int| 0 <= j < k ==> names[j] != name,
        k < names.len() ==> names[k] == name,
    ensures
        index_of(names, name) == if k < names.len() {
            Some(k)
        } else {
            None
        },
    decreases k,
{
    if k > 0 {
        let t = names.drop_first();
        lemma_index_of(t, name, k - 1);
    }
}

/// Where a request with the given method and path goes: a request that is
/// no `POST` is a bad request, whatever its path is; else the path without
/// its leading slash names the handler.
pub open spec fn dispatch_of(
    method: Seq<char>,
    path: Seq<char>,
    names: Seq<Seq<char>>,
) -> Dispatch {
    if method != "POST"@ {
        Dispatch::BadRequest
    } else {
        match index_of(names, path.subrange(1, path.len() as int)) {
            Some(i) => Dispatch::Call(i as usize),
            None => Dispatch::NotFound,
        }
    }
}

/// The status of the answer after the call of a handler: 500 where the
/// task was aborted, 400 where the handler failed, else the status of its
/// answer.
pub open spec fn status_after(outcome: CallOutcome) -> u16 {
    match outcome {
        CallOutcome::Aborted => 500,
        CallOutcome::Failed(_) => 400,
        CallOutcome::Answered(status) => status,
    }
}

impl View for HandlerTable {
    type V = Seq<Seq<char>>;

    closed spec fn view(&self) -> Seq<Seq<char>> {
        self.names@.map_values(|n: String| n@)
    }
}

impl HandlerTable {
    /// The table without handlers.
    pub fn new() -> (r: HandlerTable)
        ensures
            r@ == Seq::<Seq<char>>::empty(),
    {
        let r = HandlerTable { names: Vec::new() };
        r
    }

    /// The index of the handler of the name.
    pub fn find(&self, name: &str) -> (r: Option<usize>)
        ensures
            match r {
                Some(i) => index_of(self@, name@) == Some(i as int) && i < self@.len(),
                None => index_of(self@, name@) is None,
            },
    {
        let mut i: usize = 0;
        while i < self.names.len()
            invariant
                i <= self.names@.len(),
                self@.len() == self.names@.len(),
                forall|j: int| 0 <= j < i ==> self@[j] != name@,
            decreases self.names@.len() - i,
        {
            if str_eq(self.names[i].as_str(), name) {
                proof {
                    lemma_index_of(self@, name@, i as int);
                }
                return Some(i);
            }
            i = i + 1;
        }
        proof {
            lemma_index_of(self@, name@, i as int);
        }
        None
    }

    /// Registers a handler under the name, in place of the handler that had
    /// the name: the index at which the handler stands.
    pub fn add_handler(&mut self, name: String) -> (index: usize)
        ensures
            match index_of(old(self)@, name@) {
                Some(i) => index == i && final(self)@ == old(self)@,
                None => index == old(self)@.len() && final(self)@ == old(self)@.push(name@),
            },
    {
        match self.find(name.as_str()) {
            Some(i) => i,
            None => {
                let index = self.names.len();
                self.names.push(name);
                index
            },
        }
    }

    /// Decides where a request goes. The path of a `POST` is not empty.
    pub fn route(&self, method: &str, uri_path: &str) -> (r: Dispatch)
        requires
            method@ == "POST"@ ==> uri_path@.len() > 0,
        ensures
            r == dispatch_of(method@, uri_path@, self@),
    {
        if !str_eq(method, "POST") {
            return Dispatch::BadRequest;
        }
        let n = uri_path.unicode_len();
        let path = uri_path.substring_char(1, n);
        match self.find(path) {
            Some(i) => Dispatch::Call(i),
            None => Dispatch::NotFound,
        }
    }
}

/// The status of the answer after the call of a handler.
pub fn reply_status(outcome: &CallOutcome) -> (r: u16)
    ensures
        r == status_after(*outcome),
{
    match outcome {
        CallOutcome::Aborted => 500,
        CallOutcome::Failed(_) => 400,
        CallOutcome::Answered(status) => *status,
    }
}

} // verus!
