use vstd::prelude::*;

use crate::error::AugurError;
use crate::text::{split_whitespace, strings_view, words};

verus! {

/// The help text that `>help` answers with.
pub const HELP_TEXT: &'static str = "```>royalroad add <link>\n>royalroad check\n>royalroad remove <link>```";

/// The answer to a `>royalroad` command from a member who is no administrator.
pub const ADMIN_NEEDED: &'static str = "Administrator permissions are needed";

/// What a message asks of the bot.
pub enum CommandAction {
    /// Nothing.
    Ignore,
    /// A reply with this text in the message's channel.
    Reply(String),
    /// `>royalroad` with these arguments, once the author's roles show the
    /// administrator permission.
    CheckAdmin(Vec<String>),
    /// An update of every novel, now.
    ForceUpdate,
}

pub enum CommandView {
    Ignore,
    Reply(Seq<char>),
    CheckAdmin(Seq<Seq<char>>),
    ForceUpdate,
}

impl View for CommandAction {
    type V = CommandView;

    open spec fn view(&self) -> CommandView {
        match self {
            CommandAction::Ignore => CommandView::Ignore,
            CommandAction::Reply(s) => CommandView::Reply(s@),
            CommandAction::CheckAdmin(args) => CommandView::CheckAdmin(strings_view(args@)),
            CommandAction::ForceUpdate => CommandView::ForceUpdate,
        }
    }
}

/// What the message `content`, sent in a guild or not by `author`, asks of a
/// bot owned by `owner`. Only messages in a guild count; the first word names
/// the command.
pub open spec fn command_of(content: Seq<char>, in_guild: bool, author: u64, owner: u64) -> CommandView {
    let args = words(content);
    if !in_guild || args.len() == 0 {
        CommandView::Ignore
    } else if args[0] == ">royalroad"@ {
        CommandView::CheckAdmin(args)
    } else if args[0] == ">ping"@ {
        CommandView::Reply("Pong!"@)
    } else if args[0] == ">help"@ {
        CommandView::Reply(HELP_TEXT@)
    } else if args[0] == ">force-update"@ {
        if author == owner {
            CommandView::ForceUpdate
        } else {
            CommandView::Ignore
        }
    } else {
        CommandView::Ignore
    }
}

/// Reads the command out of a message.
pub fn handle(content: &str, in_guild: bool, author: u64, owner: u64) -> (a: CommandAction)
    ensures
        a@ == command_of(content@, in_guild, author, owner),
{
    let args = split_whitespace(content);
    if !in_guild || args.len() == 0 {
        return CommandAction::Ignore;
    }
    assert(strings_view(args@)[0] == args@[0]@);
    if args[0] == ">royalroad".to_string() {
        CommandAction::CheckAdmin(args)
    } else if args[0] == ">ping".to_string() {
        CommandAction::Reply("Pong!".to_string())
    } else if args[0] == ">help".to_string() {
        CommandAction::Reply(HELP_TEXT.to_string())
    } else if args[0] == ">force-update".to_string() {
        if author == owner {
            CommandAction::ForceUpdate
        } else {
            CommandAction::Ignore
        }
    } else {
        CommandAction::Ignore
    }
}

/// The bits of the administrator permission.
pub open spec fn administrator() -> u64 {
    8
}

/// `twilight_model::guild::Permissions::ADMINISTRATOR`, as its bits. The
/// crate's source defines that flag as `1 << 3`.
#[verifier::external_body]
fn administrator_bits() -> (bits: u64)
    ensures
        bits == administrator(),
{
    twilight_model::guild::Permissions::ADMINISTRATOR.bits()
}

/// The permissions of the role `id` among the guild's roles `(id, permissions)`.
pub open spec fn role_permissions(roles: Seq<(u64, u64)>, id: u64) -> Option<u64>
    decreases roles.len(),
{
    if roles.len() == 0 {
        None
    } else if roles[0].0 == id {
        Some(roles[0].1)
    } else {
        role_permissions(roles.drop_first(), id)
    }
}

/// Whether a member with the roles `member_roles` is an administrator of a
/// guild with the roles `guild_roles`. The roles are taken in order: the first
/// one with the administrator permission settles it, and a role the guild does
/// not list, met before that, is an error.
pub open spec fn admin_scan(member_roles: Seq<u64>, guild_roles: Seq<(u64, u64)>) -> Result<bool, AugurError>
    decreases member_roles.len(),
{
    if member_roles.len() == 0 {
        Ok(false)
    } else {
        match role_permissions(guild_roles, member_roles[0]) {
            None => Err(AugurError::FailedDiscordRequest),
            Some(p) => if p & administrator() == administrator() {
                Ok(true)
            } else {
                admin_scan(member_roles.drop_first(), guild_roles)
            },
        }
    }
}

fn find_role(guild_roles: &Vec<(u64, u64)>, id: u64) -> (r: Option<u64>)
    ensures
        r == role_permissions(guild_roles@, id),
{
    let mut i: usize = 0;
    assert(guild_roles@.skip(0) =~= guild_roles@);
    while i < guild_roles.len()
        invariant
            0 <= i <= guild_roles.len(),
            role_permissions(guild_roles@, id) == role_permissions(guild_roles@.skip(i as int), id),
        decreases guild_roles.len() - i,
    {
        assert(guild_roles@.skip(i as int).drop_first() =~= guild_roles@.skip(i + 1));
        if guild_roles[i].0 == id {
            return Some(guild_roles[i].1);
        }
        i = i + 1;
    }
    None
}

/// Whether a member with the roles `member_roles` is an administrator of a
/// guild whose roles are `guild_roles`, as `(role id, permission bits)`.
pub fn admin_check(member_roles: &Vec<u64>, guild_roles: &Vec<(u64, u64)>) -> (r: Result<bool, AugurError>)
    ensures
        r == admin_scan(member_roles@, guild_roles@),
{
    let admin = administrator_bits();
    let mut i: usize = 0;
    assert(member_roles@.skip(0) =~= member_roles@);
    while i < member_roles.len()
        invariant
            0 <= i <= member_roles.len(),
            admin == administrator(),
            admin_scan(member_roles@, guild_roles@) == admin_scan(member_roles@.skip(i as int), guild_roles@),
        decreases member_roles.len() - i,
    {
        assert(member_roles@.skip(i as int).drop_first() =~= member_roles@.skip(i + 1));
        let permissions = match find_role(guild_roles, member_roles[i]) {
            Some(p) => p,
            None => return Err(AugurError::FailedDiscordRequest),
        };
        if permissions & admin == admin {
            return Ok(true);
        }
        i = i + 1;
    }
    Ok(false)
}

/// What `>royalroad` with the arguments `args` leads to once the author's roles
/// are known.
pub enum Authorization {
    /// Run the `>royalroad` command with these arguments.
    Run(Vec<String>),
    /// Refuse it with this reply.
    Refuse(String),
}

/// The outcome of `>royalroad` with the arguments `args`, for an author with the
/// roles `member_roles` in a guild with the roles `guild_roles`.
pub fn authorize(args: Vec<String>, member_roles: &Vec<u64>, guild_roles: &Vec<(u64, u64)>) -> (r: Result<Authorization, AugurError>)
    ensures
        match admin_scan(member_roles@, guild_roles@) {
            Err(e) => r == Err::<Authorization, AugurError>(e),
            Ok(true) => r matches Ok(Authorization::Run(a)) && a@ == args@,
            Ok(false) => r matches Ok(Authorization::Refuse(s)) && s@ == ADMIN_NEEDED@,
        },
{
    match admin_check(member_roles, guild_roles) {
        Err(e) => Err(e),
        Ok(true) => Ok(Authorization::Run(args)),
        Ok(false) => Ok(Authorization::Refuse(ADMIN_NEEDED.to_string())),
    }
}

/// Whether `guild_roles[j]` is the first of `guild_roles` with its id.
pub open spec fn first_with_id(guild_roles: Seq<(u64, u64)>, j: int) -> bool {
    &&& 0 <= j < guild_roles.len()
    &&& forall|j2: int| 0 <= j2 < j ==> #[trigger] guild_roles[j2].0 != guild_roles[j].0
}

proof fn lemma_role_permissions_found(guild_roles: Seq<(u64, u64)>, id: u64)
    ensures
        role_permissions(guild_roles, id) is None <==> forall|j: int|
            0 <= j < guild_roles.len() ==> #[trigger] guild_roles[j].0 != id,
        role_permissions(guild_roles, id) is Some ==> exists|j: int|
            first_with_id(guild_roles, j) && #[trigger] guild_roles[j].0 == id
                && role_permissions(guild_roles, id) == Some(guild_roles[j].1),
    decreases guild_roles.len(),
{
    if guild_roles.len() > 0 {
        let rest = guild_roles.drop_first();
        lemma_role_permissions_found(rest, id);
        if guild_roles[0].0 == id {
            assert(first_with_id(guild_roles, 0));
        } else {
            assert forall|j: int| 0 <= j < rest.len() implies #[trigger] rest[j] == guild_roles[j + 1] by {}
            if role_permissions(rest, id) is Some {
                let j = choose|j: int|
                    first_with_id(rest, j) && #[trigger] rest[j].0 == id && role_permissions(rest, id) == Some(
                        rest[j].1,
                    );
                assert(guild_roles[j + 1] == rest[j]);
                assert forall|j2: int| 0 <= j2 < j + 1 implies #[trigger] guild_roles[j2].0 != guild_roles[j + 1].0 by {
                    if j2 > 0 {
                        assert(guild_roles[j2] == rest[j2 - 1]);
                    }
                }
                assert(first_with_id(guild_roles, j + 1));
            } else {
                assert forall|j: int| 0 <= j < guild_roles.len() implies #[trigger] guild_roles[j].0 != id by {
                    if j > 0 {
                        assert(guild_roles[j] == rest[j - 1]);
                    }
                }
            }
        }
    }
}

/// A member is an administrator only through a role of theirs that the guild
/// lists with the administrator bit (`1 << 3`) set; a member none of whose roles
/// has that bit is never one. A member found to be no administrator has every
/// role listed by the guild, none of them (as the guild first lists it) with
/// that bit; an error comes only from a role of theirs that the guild does not
/// list.
pub proof fn lemma_admin_scan_bit(member_roles: Seq<u64>, guild_roles: Seq<(u64, u64)>)
    ensures
        admin_scan(member_roles, guild_roles) == Ok::<bool, AugurError>(true) ==> exists|i: int, j: int|
            0 <= i < member_roles.len() && 0 <= j < guild_roles.len() && #[trigger] guild_roles[j].0
                == #[trigger] member_roles[i] && guild_roles[j].1 & 8 == 8,
        admin_scan(member_roles, guild_roles) == Ok::<bool, AugurError>(false) ==> forall|i: int|
            0 <= i < member_roles.len() ==> exists|j: int|
                first_with_id(guild_roles, j) && #[trigger] guild_roles[j].0 == #[trigger] member_roles[i],
        admin_scan(member_roles, guild_roles) == Ok::<bool, AugurError>(false) ==> forall|i: int, j: int|
            0 <= i < member_roles.len() && first_with_id(guild_roles, j) && #[trigger] guild_roles[j].0
                == #[trigger] member_roles[i] ==> guild_roles[j].1 & 8 != 8,
        admin_scan(member_roles, guild_roles) is Err ==> exists|i: int|
            0 <= i < member_roles.len() && forall|j: int|
                0 <= j < guild_roles.len() ==> #[trigger] guild_roles[j].0 != #[trigger] member_roles[i],
    decreases member_roles.len(),
{
    if member_roles.len() > 0 {
        let rest = member_roles.drop_first();
        let id = member_roles[0];
        lemma_admin_scan_bit(rest, guild_roles);
        lemma_role_permissions_found(guild_roles, id);
        assert forall|i: int| 0 <= i < rest.len() implies #[trigger] rest[i] == member_roles[i + 1] by {}
        match role_permissions(guild_roles, id) {
            None => {
                assert(forall|j: int| 0 <= j < guild_roles.len() ==> #[trigger] guild_roles[j].0 != member_roles[0]);
            },
            Some(p) => {
                let j0 = choose|j: int|
                    first_with_id(guild_roles, j) && #[trigger] guild_roles[j].0 == id && role_permissions(guild_roles, id)
                        == Some(guild_roles[j].1);
                if p & 8 == 8 {
                    assert(guild_roles[j0].0 == member_roles[0]);
                } else {
                    if admin_scan(member_roles, guild_roles) == Ok::<bool, AugurError>(true) {
                        let (i, j) = choose|i: int, j: int|
                            0 <= i < rest.len() && 0 <= j < guild_roles.len() && #[trigger] guild_roles[j].0
                                == #[trigger] rest[i] && guild_roles[j].1 & 8 == 8;
                        assert(guild_roles[j].0 == member_roles[i + 1]);
                    }
                    if admin_scan(member_roles, guild_roles) == Ok::<bool, AugurError>(false) {
                        assert forall|i: int| 0 <= i < member_roles.len() implies exists|j: int|
                            first_with_id(guild_roles, j) && #[trigger] guild_roles[j].0 == #[trigger] member_roles[i] by {
                            if i == 0 {
                                assert(guild_roles[j0].0 == member_roles[0]);
                            } else {
                                assert(member_roles[i] == rest[i - 1]);
                            }
                        }
                        assert forall|i: int, j: int|
                            0 <= i < member_roles.len() && first_with_id(guild_roles, j) && #[trigger] guild_roles[j].0
                                == #[trigger] member_roles[i] implies guild_roles[j].1 & 8 != 8 by {
                            if i == 0 {
                                if j != j0 {
                                    if j < j0 {
                                        assert(guild_roles[j].0 != guild_roles[j0].0);
                                    } else {
                                        assert(guild_roles[j0].0 != guild_roles[j].0);
                                    }
                                }
                            } else {
                                assert(member_roles[i] == rest[i - 1]);
                            }
                        }
                    }
                    if admin_scan(member_roles, guild_roles) is Err {
                        let i = choose|i: int|
                            0 <= i < rest.len() && forall|j: int|
                                0 <= j < guild_roles.len() ==> #[trigger] guild_roles[j].0 != #[trigger] rest[i];
                        assert(member_roles[i + 1] == rest[i]);
                        assert forall|j: int| 0 <= j < guild_roles.len() implies #[trigger] guild_roles[j].0
                            != #[trigger] member_roles[i + 1] by {
                            assert(guild_roles[j].0 != rest[i]);
                        }
                    }
                }
            },
        }
    }
}

} // verus!
