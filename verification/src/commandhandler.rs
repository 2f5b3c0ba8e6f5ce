//! The command dispatcher: parses an inbound message, resolves the command
//! in the registry, enforces the permission check before the cooldown
//! check, and reports which behavior to invoke. Cooldown entries are
//! recorded here, synchronously with the dispatch that triggers them;
//! callers schedule the later removal.

use vstd::prelude::*;
use vstd::string::*;

use crate::commands::Command;
use crate::text::{lemma_split_spec_first, split_spec, split_tokens};
use crate::types::{rank, PermissionLevel, UserContext};

verus! {

/// The first registry entry under a name, if any; names are unique keys,
/// so at most one entry matches.
pub open spec fn lookup_spec(registry: Seq<(String, Command)>, name: Seq<char>) -> Option<Command>
    decreases registry.len(),
{
    if registry.len() == 0 {
        None
    } else if registry[0].0@ == name {
        Some(registry[0].1)
    } else {
        lookup_spec(registry.skip(1), name)
    }
}

/// The fixed denial reply for a command that needs a higher level.
pub open spec fn denial_text(required: PermissionLevel, name: Seq<char>) -> Seq<char> {
    "Sorry, only "@ + required.name_seq() + "s have access to the "@ + name + " command"@
}

/// The abstract membership of the cooldown entry list: one pair per
/// identity id and command name currently suppressed.
pub open spec fn pairs_of(entries: Seq<(i32, String)>) -> Set<(int, Seq<char>)> {
    Set::new(
        |p: (int, Seq<char>)|
            exists|i: int|
                0 <= i < entries.len() && (#[trigger] entries[i]).0 as int == p.0
                    && entries[i].1@ == p.1,
    )
}

pub proof fn lemma_pairs_push(entries: Seq<(i32, String)>, e: (i32, String))
    ensures
        pairs_of(entries.push(e)) == pairs_of(entries).insert((e.0 as int, e.1@)),
{
    assert forall|p: (int, Seq<char>)|
        pairs_of(entries.push(e)).contains(p) <==> pairs_of(entries).insert(
            (e.0 as int, e.1@),
        ).contains(p) by {
        if pairs_of(entries.push(e)).contains(p) {
            let i = choose|i: int|
                0 <= i < entries.push(e).len() && (#[trigger] entries.push(e)[i]).0 as int == p.0
                    && entries.push(e)[i].1@ == p.1;
            if i < entries.len() {
                assert((entries[i]).0 as int == p.0 && entries[i].1@ == p.1);
            } else {
                assert(entries.push(e)[i] == e);
            }
        }
        if pairs_of(entries).insert((e.0 as int, e.1@)).contains(p) {
            if p == (e.0 as int, e.1@) {
                assert((entries.push(e)[entries.len() as int]).0 as int == p.0
                    && entries.push(e)[entries.len() as int].1@ == p.1);
            } else {
                let i = choose|i: int|
                    0 <= i < entries.len() && (#[trigger] entries[i]).0 as int == p.0
                        && entries[i].1@ == p.1;
                assert((entries.push(e)[i]).0 as int == p.0 && entries.push(e)[i].1@ == p.1);
            }
        }
    }
    assert(pairs_of(entries.push(e)) =~= pairs_of(entries).insert((e.0 as int, e.1@)));
}

/// What the dispatcher decided for one inbound message, over abstract
/// values: the model of a [`DispatchDecision`].
pub enum DecisionModel {
    /// The message does not carry the command prefix.
    Ignored,
    /// The named command is not in the registry; nothing is emitted.
    Unknown,
    /// The identity's level is below the command's; the fixed denial is
    /// emitted and no cooldown is started.
    Forbidden { response: Seq<char> },
    /// The pair (identity, command) is suppressed; nothing is emitted and
    /// the behavior is not invoked.
    OnCooldown,
    /// The behavior is to be invoked with these parameters, and a cooldown
    /// of `user_cooldown` seconds started unless the identity is a
    /// Superuser.
    Invoke { name: Seq<char>, params: Seq<Seq<char>>, user_cooldown: u64 },
}

/// What the dispatcher decided for one inbound message.
pub enum DispatchDecision {
    Ignored,
    Unknown,
    Forbidden { response: String },
    OnCooldown,
    Invoke { name: String, params: Vec<String>, user_cooldown: u64 },
}

impl DispatchDecision {
    pub open spec fn model(self) -> DecisionModel {
        match self {
            DispatchDecision::Ignored => DecisionModel::Ignored,
            DispatchDecision::Unknown => DecisionModel::Unknown,
            DispatchDecision::Forbidden { response } => DecisionModel::Forbidden {
                response: response@,
            },
            DispatchDecision::OnCooldown => DecisionModel::OnCooldown,
            DispatchDecision::Invoke { name, params, user_cooldown } => DecisionModel::Invoke {
                name: name@,
                params: params.deep_view(),
                user_cooldown,
            },
        }
    }
}

/// The dispatch state machine over abstract state: what the dispatcher
/// decides given the registry, the current cooldown entries, the invoking
/// identity and the message text. The permission check precedes the
/// cooldown check; a forbidden or suppressed dispatch never reaches the
/// behavior.
pub open spec fn decision_of(
    registry: Seq<(String, Command)>,
    cooldowns: Set<(int, Seq<char>)>,
    user: UserContext,
    text: Seq<char>,
) -> DecisionModel {
    if text.len() == 0 || text[0] != '&' {
        DecisionModel::Ignored
    } else {
        let tokens = split_spec(text);
        let name = tokens[0].skip(1);
        match lookup_spec(registry, name) {
            Option::None => DecisionModel::Unknown,
            Option::Some(cmd) => {
                if rank(user.permissions) < rank(cmd.permission_needed) {
                    DecisionModel::Forbidden {
                        response: denial_text(cmd.permission_needed, name),
                    }
                } else if cooldowns.contains((user.uid as int, name)) {
                    DecisionModel::OnCooldown
                } else {
                    DecisionModel::Invoke {
                        name,
                        params: tokens.skip(1),
                        user_cooldown: cmd.user_cooldown,
                    }
                }
            },
        }
    }
}

/// The command registry together with the per-(identity, command) cooldown
/// entries.
pub struct CommandHandler {
    /// The registry rows, loaded in bulk at startup and read-only
    /// afterwards; names are unique keys.
    pub command_list: Vec<(String, Command)>,
    /// The live cooldown entries; read through
    /// [`Self::cooldown_set`] in contracts.
    pub user_cooldowns: Vec<(i32, String)>,
}

impl CommandHandler {
    /// The identity/command pairs currently suppressed.
    pub closed spec fn cooldown_set(self) -> Set<(int, Seq<char>)> {
        pairs_of(self.user_cooldowns@)
    }

    pub fn new(command_list: Vec<(String, Command)>) -> (handler: CommandHandler)
        ensures
            handler.command_list == command_list,
            handler.cooldown_set() == Set::<(int, Seq<char>)>::empty(),
    {
        let handler = CommandHandler { command_list, user_cooldowns: Vec::new() };
        proof {
            assert(handler.cooldown_set() =~= Set::<(int, Seq<char>)>::empty());
        }
        handler
    }

    /// The registry entry under a name, if any: an exact, case-preserving
    /// match on the registry key.
    pub fn find(&self, name: &String) -> (r: Option<&Command>)
        ensures
            (match r {
                Some(cmd) => lookup_spec(self.command_list@, name@) == Some(*cmd),
                None => lookup_spec(self.command_list@, name@) is None,
            }),
    {
        let n = self.command_list.len();
        let mut i: usize = 0;
        proof {
            assert(self.command_list@.skip(0) =~= self.command_list@);
        }
        while i < n
            invariant
                i <= n == self.command_list@.len(),
                lookup_spec(self.command_list@, name@) == lookup_spec(
                    self.command_list@.skip(i as int),
                    name@,
                ),
            decreases n - i,
        {
            proof {
                assert(self.command_list@.skip(i as int)[0] == self.command_list@[i as int]);
                assert(self.command_list@.skip(i as int).skip(1) =~= self.command_list@.skip(
                    i + 1,
                ));
            }
            let entry = &self.command_list[i];
            if entry.0 == *name {
                return Some(&entry.1);
            }
            i += 1;
        }
        proof {
            assert(self.command_list@.skip(n as int).len() == 0);
        }
        None
    }

    /// Whether the pair (identity, command) is currently suppressed.
    pub fn is_on_cooldown(&self, uid: i32, command_name: &String) -> (r: bool)
        ensures
            r == self.cooldown_set().contains((uid as int, command_name@)),
    {
        let n = self.user_cooldowns.len();
        let mut i: usize = 0;
        while i < n
            invariant
                i <= n == self.user_cooldowns@.len(),
                forall|j: int|
                    0 <= j < i ==> !((#[trigger] self.user_cooldowns@[j]).0 == uid
                        && self.user_cooldowns@[j].1@ == command_name@),
            decreases n - i,
        {
            let entry = &self.user_cooldowns[i];
            if entry.0 == uid && entry.1 == *command_name {
                proof {
                    assert((self.user_cooldowns@[i as int]).0 as int == uid as int
                        && self.user_cooldowns@[i as int].1@ == command_name@);
                }
                return true;
            }
            i += 1;
        }
        proof {
            if self.cooldown_set().contains((uid as int, command_name@)) {
                let j = choose|j: int|
                    0 <= j < self.user_cooldowns@.len()
                        && (#[trigger] self.user_cooldowns@[j]).0 as int == uid as int
                        && self.user_cooldowns@[j].1@ == command_name@;
                assert(false);
            }
        }
        false
    }

    /// Decides what happens for one inbound message: exactly the state
    /// machine [`decision_of`] over this handler's registry and cooldown
    /// entries.
    pub fn execute(&self, user_context: &UserContext, message_text: &str) -> (decision:
        DispatchDecision)
        ensures
            decision.model() == decision_of(
                self.command_list@,
                self.cooldown_set(),
                *user_context,
                message_text@,
            ),
    {
        let n = message_text.unicode_len();
        if n == 0 || message_text.get_char(0) != '&' {
            return DispatchDecision::Ignored;
        }
        let tokens = split_tokens(message_text);
        proof {
            lemma_split_spec_first(message_text@);
            assert(tokens.deep_view()[0] == split_spec(message_text@)[0]);
        }
        let token0 = &tokens[0];
        let t0n = token0.as_str().unicode_len();
        let name_slice = token0.as_str().substring_char(1, t0n);
        let name: String = name_slice.to_owned();
        proof {
            assert(name@ =~= split_spec(message_text@)[0].skip(1));
        }
        match self.find(&name) {
            None => DispatchDecision::Unknown,
            Some(cmd) => {
                if !user_context.permissions.satisfies(cmd.permission_needed) {
                    let mut response = String::from_str("Sorry, only ");
                    response.append(cmd.permission_needed.name_text());
                    response.append("s have access to the ");
                    response.append(name.as_str());
                    response.append(" command");
                    DispatchDecision::Forbidden { response }
                } else if self.is_on_cooldown(user_context.uid, &name) {
                    DispatchDecision::OnCooldown
                } else {
                    let user_cooldown = cmd.user_cooldown;
                    let mut params: Vec<String> = Vec::new();
                    let mut j: usize = 1;
                    while j < tokens.len()
                        invariant
                            1 <= j <= tokens@.len(),
                            params.deep_view() == tokens.deep_view().skip(1).take(j - 1),
                        decreases tokens@.len() - j,
                    {
                        let ghost pre = params.deep_view();
                        params.push(tokens[j].clone());
                        proof {
                            assert(params.deep_view() =~~= pre.push(tokens@[j as int]@));
                            assert(pre.push(tokens@[j as int]@) =~~= tokens.deep_view().skip(
                                1,
                            ).take(j as int));
                        }
                        j += 1;
                    }
                    proof {
                        assert(params.deep_view() =~~= split_spec(message_text@).skip(1));
                    }
                    DispatchDecision::Invoke { name, params, user_cooldown }
                }
            },
        }
    }

    /// Records the cooldown entry for a completed invocation, unless the
    /// identity is a Superuser: Superusers are exempt and no entry is ever
    /// created for them. The entry is inserted synchronously; callers
    /// schedule [`Self::end_user_cooldown`] once the duration elapses.
    pub fn start_user_cooldown(&mut self, user_context: &UserContext, command_name: String)
        ensures
            final(self).command_list == old(self).command_list,
            user_context.permissions == PermissionLevel::Superuser ==> final(self).cooldown_set()
                == old(self).cooldown_set(),
            user_context.permissions != PermissionLevel::Superuser ==> final(self).cooldown_set()
                == old(self).cooldown_set().insert((user_context.uid as int, command_name@)),
    {
        if user_context.permissions == PermissionLevel::Superuser {
            return;
        }
        let ghost pre = self.user_cooldowns@;
        let ghost e = (user_context.uid, command_name);
        self.user_cooldowns.push((user_context.uid, command_name));
        proof {
            lemma_pairs_push(pre, e);
        }
    }

    /// Removes the cooldown entry for the pair (identity, command); called
    /// when its duration has elapsed.
    pub fn end_user_cooldown(&mut self, uid: i32, command_name: &String)
        ensures
            final(self).command_list == old(self).command_list,
            final(self).cooldown_set() == old(self).cooldown_set().remove(
                (uid as int, command_name@),
            ),
    {
        let n = self.user_cooldowns.len();
        let mut kept: Vec<(i32, String)> = Vec::new();
        let mut i: usize = 0;
        while i < n
            invariant
                i <= n == self.user_cooldowns@.len(),
                self == old(self),
                forall|p: (int, Seq<char>)|
                    #[trigger] pairs_of(kept@).contains(p) <==> (pairs_of(
                        self.user_cooldowns@.take(i as int),
                    ).contains(p) && p != (uid as int, command_name@)),
            decreases n - i,
        {
            proof {
                assert(self.user_cooldowns@.take(i + 1) =~= self.user_cooldowns@.take(
                    i as int,
                ).push(self.user_cooldowns@[i as int]));
                lemma_pairs_push(self.user_cooldowns@.take(i as int), self.user_cooldowns@[i as int]);
            }
            let entry = &self.user_cooldowns[i];
            if !(entry.0 == uid && entry.1 == *command_name) {
                let ghost pre = kept@;
                kept.push((entry.0, entry.1.clone()));
                proof {
                    lemma_pairs_push(pre, self.user_cooldowns@[i as int]);
                }
            }
            i += 1;
        }
        proof {
            assert(self.user_cooldowns@.take(n as int) =~= self.user_cooldowns@);
        }
        self.user_cooldowns = kept;
        proof {
            assert(self.cooldown_set() =~= old(self).cooldown_set().remove(
                (uid as int, command_name@),
            ));
        }
    }
}

/// Dispatch of a command by an identity below its required level yields
/// the fixed denial text naming the required level and the command, and
/// the decision is not `Invoke` — the only decision after which a cooldown
/// is started.
pub proof fn lemma_denied_below_required_level(
    registry: Seq<(String, Command)>,
    cooldowns: Set<(int, Seq<char>)>,
    user: UserContext,
    text: Seq<char>,
    cmd: Command,
)
    requires
        text.len() > 0,
        text[0] == '&',
        lookup_spec(registry, split_spec(text)[0].skip(1)) == Some(cmd),
        rank(user.permissions) < rank(cmd.permission_needed),
    ensures
        decision_of(registry, cooldowns, user, text) == (DecisionModel::Forbidden {
            response: denial_text(cmd.permission_needed, split_spec(text)[0].skip(1)),
        }),
        !(decision_of(registry, cooldowns, user, text) is Invoke),
{
}

/// A second invocation of the same command by the same identity inside the
/// cooldown window is suppressed (the behavior runs at most once per
/// window), and once the entry is removed again a third invocation is
/// dispatched exactly as the first.
pub proof fn lemma_cooldown_window_round_trip(
    registry: Seq<(String, Command)>,
    cooldowns: Set<(int, Seq<char>)>,
    user: UserContext,
    text: Seq<char>,
    name: Seq<char>,
    params: Seq<Seq<char>>,
    user_cooldown: u64,
)
    requires
        decision_of(registry, cooldowns, user, text) == (DecisionModel::Invoke {
            name,
            params,
            user_cooldown,
        }),
    ensures
        decision_of(
            registry,
            cooldowns.insert((user.uid as int, name)),
            user,
            text,
        ) == DecisionModel::OnCooldown,
        decision_of(
            registry,
            cooldowns.insert((user.uid as int, name)).remove((user.uid as int, name)),
            user,
            text,
        ) == (DecisionModel::Invoke { name, params, user_cooldown }),
{
    let pair = (user.uid as int, name);
    assert(cooldowns.insert(pair).contains(pair));
    assert(cooldowns.insert(pair).remove(pair) =~= cooldowns);
}

/// Superuser identities are never blocked by cooldown: with no cooldown
/// entry recorded under the identity's id — and `start_user_cooldown`
/// never records one for a Superuser — dispatch never yields `OnCooldown`,
/// however often it runs.
pub proof fn lemma_superuser_never_on_cooldown(
    registry: Seq<(String, Command)>,
    cooldowns: Set<(int, Seq<char>)>,
    user: UserContext,
    text: Seq<char>,
)
    requires
        user.permissions == PermissionLevel::Superuser,
        forall|name: Seq<char>| !cooldowns.contains((user.uid as int, name)),
    ensures
        !(decision_of(registry, cooldowns, user, text) is OnCooldown),
{
    if text.len() > 0 && text[0] == '&' {
        let name = split_spec(text)[0].skip(1);
        assert(!cooldowns.contains((user.uid as int, name)));
    }
}

} // verus!
