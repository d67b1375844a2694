use vstd::prelude::*;

use crate::text::strings_view;

pub mod royalstruct;
pub mod add;
pub mod remove;
pub mod check;
pub mod tables;

verus! {

/// The title of the embed that carries the outcome of a `>royalroad` command.
pub const RESULT_TITLE: &'static str = "Result";

/// The colour of that embed.
pub const RESULT_COLOR: u32 = 0x80_00_80;

/// The name of the embed field that shows how a sub-command is used.
pub const USAGE_FIELD: &'static str = "Usage";

/// The description of the embed for a sub-command given without its link.
pub const EMPTY_ARGUMENT: &'static str = "`EmptyArgument`: No provided arguments";

/// The description of the embed for an unknown sub-command.
pub const UNKNOWN_SUBCOMMAND: &'static str = "`Unknown subcommand`";

/// How `add` is used.
pub const ADD_USAGE: &'static str = ">royalroad add <link>";

/// How `remove` is used.
pub const REMOVE_USAGE: &'static str = ">royalroad remove <link>";

/// Where a `>royalroad` command goes.
pub enum RoyalRoute {
    /// Subscribe the channel to the novel at this link.
    Add(String),
    /// Unsubscribe the channel from the novel at this link.
    Remove(String),
    /// List the novels that the guild follows.
    Check,
    /// Answer at once with this description and, where there is one, the
    /// usage field with this value.
    Reply { description: String, usage: Option<String> },
}

pub enum RouteView {
    Add(Seq<char>),
    Remove(Seq<char>),
    Check,
    Reply { description: Seq<char>, usage: Option<Seq<char>> },
}

impl View for RoyalRoute {
    type V = RouteView;

    open spec fn view(&self) -> RouteView {
        match self {
            RoyalRoute::Add(l) => RouteView::Add(l@),
            RoyalRoute::Remove(l) => RouteView::Remove(l@),
            RoyalRoute::Check => RouteView::Check,
            RoyalRoute::Reply { description, usage } => RouteView::Reply {
                description: description@,
                usage: match usage {
                    Some(u) => Some(u@),
                    None => None,
                },
            },
        }
    }
}

/// Where the `>royalroad` command with the words `args` goes: the second word
/// names the sub-command, the third is the link that `add` and `remove` need.
pub open spec fn route_of(args: Seq<Seq<char>>) -> RouteView {
    if args[1] == "add"@ {
        if args.len() < 3 {
            RouteView::Reply { description: EMPTY_ARGUMENT@, usage: Some(ADD_USAGE@) }
        } else {
            RouteView::Add(args[2])
        }
    } else if args[1] == "remove"@ {
        if args.len() < 3 {
            RouteView::Reply { description: EMPTY_ARGUMENT@, usage: Some(REMOVE_USAGE@) }
        } else {
            RouteView::Remove(args[2])
        }
    } else if args[1] == "check"@ {
        RouteView::Check
    } else {
        RouteView::Reply { description: UNKNOWN_SUBCOMMAND@, usage: None }
    }
}

/// Routes the `>royalroad` command with the words `args` (the first of them is
/// `>royalroad`). It needs a sub-command: the bot cannot go on without one.
pub fn handle(args: &Vec<String>) -> (r: RoyalRoute)
    requires
        args.len() >= 2,
    ensures
        r@ == route_of(strings_view(args@)),
{
    let ghost a = strings_view(args@);
    assert(a[1] == args@[1]@);
    if args[1] == "add".to_string() {
        if args.len() < 3 {
            RoyalRoute::Reply {
                description: EMPTY_ARGUMENT.to_string(),
                usage: Some(ADD_USAGE.to_string()),
            }
        } else {
            assert(a[2] == args@[2]@);
            RoyalRoute::Add(args[2].clone())
        }
    } else if args[1] == "remove".to_string() {
        if args.len() < 3 {
            RoyalRoute::Reply {
                description: EMPTY_ARGUMENT.to_string(),
                usage: Some(REMOVE_USAGE.to_string()),
            }
        } else {
            assert(a[2] == args@[2]@);
            RoyalRoute::Remove(args[2].clone())
        }
    } else if args[1] == "check".to_string() {
        RoyalRoute::Check
    } else {
        RoyalRoute::Reply { description: UNKNOWN_SUBCOMMAND.to_string(), usage: None }
    }
}

} // verus!
