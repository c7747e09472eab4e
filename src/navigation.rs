//! Moving through a stack of commits: the target of `prev`, and the walk
//! of `next` from a commit to one of its children at each step.

use vstd::prelude::*;
use crate::report::{pluralize, pluralized};
use crate::text::{dec_int, format_i64};

verus! {

/// Some commits have more than one child, which makes `next` ambiguous.
/// These values say which child to go to, by committed date.
#[derive(Clone, Copy, Debug, PartialEq, Eq, Structural)]
pub enum Towards {
    /// The newest child.
    Newest,
    /// The oldest child.
    Oldest,
    /// Ask which child.
    Interactive,
}

/// What a navigation command ends in.
#[derive(Clone, Debug, PartialEq, Eq)]
pub enum NavigationAction {
    /// Check out this revision.
    CheckOut(String),
    /// Stop with this exit code.
    Exit(isize),
}

/// The revision `prev` checks out.
pub open spec fn prev_target(num_commits: Option<isize>) -> Seq<char> {
    match num_commits {
        None => "HEAD^"@,
        Some(n) => "HEAD~"@ + dec_int(n as int),
    }
}

/// Goes back a number of commits: the revision to check out, `HEAD^` for
/// one commit back when no count is given.
pub fn prev(num_commits: Option<isize>) -> (r: NavigationAction)
    ensures
        r is CheckOut && r->CheckOut_0@ == prev_target(num_commits),
{
    match num_commits {
        None => NavigationAction::CheckOut(String::from_str("HEAD^")),
        Some(n) => {
            let mut target = String::from_str("HEAD~");
            let digits = format_i64(n as i64);
            target.append(digits.as_str());
            NavigationAction::CheckOut(target)
        },
    }
}

/// Why `next` could not start.
#[derive(Clone, Copy, Debug, PartialEq, Eq, Structural)]
pub enum NavigationError {
    /// No commit is checked out.
    NoHead,
}

/// Which child a step of `next` goes to, among `n` children sorted from
/// oldest to newest.
#[derive(Clone, Copy, Debug, PartialEq, Eq, Structural)]
pub enum ChildChoice {
    /// There is no child: the walk stops where it is.
    NoMoreChildren,
    /// Go to the child at this position.
    Take(usize),
    /// Ask the user which child.
    Prompt,
    /// The step is ambiguous; the walk ends without moving.
    Ambiguous,
}

/// The walk of `next`: where it stands and how many steps are left.
#[derive(Clone, Debug, PartialEq, Eq)]
pub struct Advance {
    pub current: String,
    pub remaining: usize,
    pub traversed: usize,
    pub towards: Option<Towards>,
}

/// The child that a step goes to.
pub open spec fn child_choice(towards: Option<Towards>, num_children: usize) -> ChildChoice {
    if num_children == 0 {
        ChildChoice::NoMoreChildren
    } else if num_children == 1 {
        ChildChoice::Take(0)
    } else {
        match towards {
            Some(Towards::Newest) => ChildChoice::Take((num_children - 1) as usize),
            Some(Towards::Oldest) => ChildChoice::Take(0),
            Some(Towards::Interactive) => ChildChoice::Prompt,
            None => ChildChoice::Ambiguous,
        }
    }
}

/// Starts the walk of `next` from the checked-out commit: `num_commits`
/// steps (one when none is given; none when it is not positive). Without a
/// direction, the configured choice to ask decides.
pub fn next(
    head_oid: Option<String>,
    num_commits: Option<isize>,
    towards: Option<Towards>,
    next_interactive: bool,
) -> (r: Result<Advance, NavigationError>)
    ensures
        head_oid is None ==> r == Err::<Advance, NavigationError>(NavigationError::NoHead),
        head_oid is Some ==> r is Ok && r->Ok_0.current == head_oid->0 && r->Ok_0.traversed == 0,
        r is Ok ==> r->Ok_0.towards == match towards {
            Some(t) => Some(t),
            None => if next_interactive {
                Some(Towards::Interactive)
            } else {
                None
            },
        },
        r is Ok ==> r->Ok_0.remaining == match num_commits {
            None => 1,
            Some(n) => if n <= 0 {
                0
            } else {
                n as int
            },
        },
{
    let current = match head_oid {
        Some(h) => h,
        None => {
            return Err(NavigationError::NoHead);
        },
    };
    let towards = match towards {
        Some(t) => Some(t),
        None => {
            if next_interactive {
                Some(Towards::Interactive)
            } else {
                None
            }
        },
    };
    let remaining: usize = match num_commits {
        None => 1,
        Some(n) => {
            if n <= 0 {
                0
            } else {
                n as usize
            }
        },
    };
    Ok(Advance { current, remaining, traversed: 0, towards })
}

impl Advance {
    /// Whether every step has been taken.
    pub fn is_done(&self) -> (r: bool)
        ensures
            r == (self.remaining == 0),
    {
        self.remaining == 0
    }

    /// Which of `num_children` children (oldest first) the next step goes
    /// to: the only one; else the newest or the oldest as asked; else ask,
    /// or give up as ambiguous when no direction was given.
    pub fn pick_child(&self, num_children: usize) -> (r: ChildChoice)
        ensures
            r == child_choice(self.towards, num_children),
            r matches ChildChoice::Take(i) ==> i < num_children,
    {
        if num_children == 0 {
            ChildChoice::NoMoreChildren
        } else if num_children == 1 {
            ChildChoice::Take(0)
        } else {
            match self.towards {
                Some(Towards::Newest) => ChildChoice::Take(num_children - 1),
                Some(Towards::Oldest) => ChildChoice::Take(0),
                Some(Towards::Interactive) => ChildChoice::Prompt,
                None => ChildChoice::Ambiguous,
            }
        }
    }

    /// Takes a step to `child`.
    pub fn move_to(&mut self, child: String)
        requires
            old(self).remaining > 0,
            old(self).traversed < usize::MAX,
        ensures
            final(self).current == child,
            final(self).remaining == old(self).remaining - 1,
            final(self).traversed == old(self).traversed + 1,
            final(self).towards == old(self).towards,
    {
        self.current = child;
        self.remaining = self.remaining - 1;
        self.traversed = self.traversed + 1;
    }

    /// The message when the walk finds no child to go to.
    pub fn no_more_children_message(&self) -> (r: String)
        ensures
            r@ == "No more child commits to go to after traversing "@ + pluralized(
                self.traversed as nat,
                "child"@,
                "children"@,
            ) + "."@,
    {
        let mut r = String::from_str("No more child commits to go to after traversing ");
        let amount = pluralize(self.traversed, "child", "children");
        r.append(amount.as_str());
        r.append(".");
        r
    }
}

/// Checks out the commit picked from the smartlog; exits with 1 when none
/// was picked.
pub fn checkout(selected: Option<String>) -> (r: NavigationAction)
    ensures
        selected is Some ==> r == NavigationAction::CheckOut(selected->0),
        selected is None ==> r == NavigationAction::Exit(1),
{
    match selected {
        Some(oid) => NavigationAction::CheckOut(oid),
        None => NavigationAction::Exit(1),
    }
}

} // verus!
