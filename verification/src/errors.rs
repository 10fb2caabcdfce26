use vstd::prelude::*;

use crate::text::joined;
use crate::words::text_views;

verus! {

/// An error that the app-server caused, or that a request to it ended in.
#[derive(Debug)]
pub struct AppServerError {
    pub message: String,
}

pub fn app_server_error(message: &str) -> (error: AppServerError)
    ensures
        error.message@ == message@,
{
    AppServerError { message: message.to_owned() }
}

/// Why an operation failed: what was attempted, then why that failed, and so on down to the
/// cause.
#[derive(Debug)]
pub struct Failure {
    pub chain: Vec<String>,
}

impl View for Failure {
    type V = Seq<Seq<char>>;

    open spec fn view(&self) -> Seq<Seq<char>> {
        text_views(self.chain@)
    }
}

impl Failure {
    /// A failure with nothing to say but this.
    pub fn new(message: &str) -> (failure: Failure)
        ensures
            failure@ == seq![message@],
    {
        let mut chain: Vec<String> = Vec::new();
        chain.push(message.to_owned());
        assert(text_views(chain@) =~= seq![message@]);
        Failure { chain }
    }

    pub fn of(message: String) -> (failure: Failure)
        ensures
            failure@ == seq![message@],
    {
        let mut chain: Vec<String> = Vec::new();
        chain.push(message);
        assert(text_views(chain@) =~= seq![message@]);
        Failure { chain }
    }

    /// A failure with what caused it.
    pub fn caused(message: &str, cause: &str) -> (failure: Failure)
        ensures
            failure@ == seq![message@, cause@],
    {
        let failure = Failure::new(cause).context(message);
        assert(failure@ =~= seq![message@, cause@]);
        failure
    }

    /// This failure as the cause of another.
    pub fn context(self, message: &str) -> (failure: Failure)
        ensures
            failure@ == seq![message@] + self@,
    {
        let mut chain = self.chain;
        chain.insert(0, message.to_owned());
        assert(text_views(chain@) =~= seq![message@] + self@);
        Failure { chain }
    }

    /// A copy of this failure.
    pub fn duplicate(&self) -> (copy: Failure)
        ensures
            copy@ == self@,
    {
        let mut chain: Vec<String> = Vec::new();
        let mut i: usize = 0;
        while i < self.chain.len()
            invariant
                i <= self.chain@.len(),
                chain@.len() == i,
                forall|j: int| 0 <= j < i ==> (#[trigger] chain@[j])@ == self.chain@[j]@,
            decreases self.chain@.len() - i,
        {
            chain.push(self.chain[i].clone());
            i += 1;
        }
        assert(text_views(chain@) =~= self@);
        Failure { chain }
    }

    /// The whole chain in one line.
    pub fn render(&self) -> (text: String)
        ensures
            text@ == joined(self@, ": "@),
    {
        let mut text = String::new();
        let ghost all = self@;
        let mut i: usize = 0;
        assert(all.take(0) =~= Seq::empty());
        while i < self.chain.len()
            invariant
                i <= self.chain@.len(),
                all == self@,
                text@ == joined(all.take(i as int), ": "@),
            decreases self.chain@.len() - i,
        {
            proof {
                assert(all.take(i + 1).drop_last() =~= all.take(i as int));
                assert(all[i as int] == self.chain@[i as int]@);
            }
            if i > 0 {
                text.append(": ");
            }
            text.append(self.chain[i].as_str());
            i += 1;
            proof {
                if i == 1 {
                    assert(text@ =~= all.take(1)[0]);
                }
            }
        }
        assert(all.take(i as int) =~= all);
        text
    }
}

} // verus!
