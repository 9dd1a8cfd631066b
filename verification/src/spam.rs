use vstd::prelude::*;
use vstd::string::*;
use crate::guild::{member_named, member_named_spec, role_by_name, role_by_name_spec, MemberEntry, RoleEntry};
use crate::text::decimal;

verus! {

/// What a mention in a message points at.
#[derive(Debug, Clone, Copy, PartialEq, Eq, Structural)]
pub enum Mention {
    Channel(u64),
    Role(u64),
    User(u64),
}

/// The text that Discord renders as a mention.
pub open spec fn mention_text(m: Mention) -> Seq<char> {
    match m {
        Mention::Channel(id) => "<#"@ + decimal(id as nat) + ">"@,
        Mention::Role(id) => "<@&"@ + decimal(id as nat) + ">"@,
        Mention::User(id) => "<@"@ + decimal(id as nat) + ">"@,
    }
}

/// The text of several mentions written one after the other.
pub open spec fn mentions_text(ms: Seq<Mention>) -> Seq<char>
    decreases ms.len(),
{
    if ms.len() == 0 {
        Seq::empty()
    } else {
        mentions_text(ms.drop_last()) + mention_text(ms.last())
    }
}

/// The text of two runs of mentions is the text of the first followed by the
/// text of the second, and the text of a single mention is its own text.
pub proof fn lemma_mentions_text_concat(a: Seq<Mention>, b: Seq<Mention>, m: Mention)
    ensures
        mentions_text(a + b) == mentions_text(a) + mentions_text(b),
        mentions_text(seq![m]) == mention_text(m),
    decreases b.len(),
{
    assert(seq![m].drop_last() =~= Seq::<Mention>::empty());
    assert(mentions_text(Seq::<Mention>::empty()) =~= Seq::<char>::empty());
    assert(seq![m].last() == m);
    assert(Seq::<char>::empty() + mention_text(m) =~= mention_text(m));
    if b.len() == 0 {
        assert(a + b =~= a);
        assert(mentions_text(a) + Seq::<char>::empty() =~= mentions_text(a));
    } else {
        lemma_mentions_text_concat(a, b.drop_last(), m);
        assert((a + b).drop_last() =~= a + b.drop_last());
        assert((a + b).last() == b.last());
        assert(mentions_text(a) + mentions_text(b.drop_last()) + mention_text(b.last()) =~= mentions_text(a) + (
        mentions_text(b.drop_last()) + mention_text(b.last())));
    }
}

/// Anything that can be mentioned, kept as the mention it stands for.
#[derive(Debug, Clone, Copy)]
pub struct MentionableAdapter {
    internal: Mention,
}

impl View for MentionableAdapter {
    type V = Mention;

    closed spec fn view(&self) -> Mention {
        self.internal
    }
}

impl MentionableAdapter {
    /// Wraps something that can be mentioned.
    pub fn from(x: Mention) -> (r: Self)
        ensures
            r@ == x,
    {
        MentionableAdapter { internal: x }
    }

    /// The mention that this stands for.
    pub fn mention(&self) -> (r: Mention)
        ensures
            r == self@,
    {
        self.internal
    }
}

/// The mentions that a list of mentionables stands for.
pub open spec fn adapters_view(ts: Seq<MentionableAdapter>) -> Seq<Mention> {
    ts.map_values(|t: MentionableAdapter| t@)
}

/// serenity's `MessageBuilder::mention`: it appends the `Display` form of the
/// mention (`<#id>`, `<@&id>` or `<@id>`, with the id in decimal) to the
/// message built so far.
#[verifier::external_body]
fn push_mention(text: &mut String, m: Mention)
    ensures
        final(text)@ == old(text)@ + mention_text(m),
{
    let target = match m {
        Mention::Channel(id) => serenity::model::mention::Mention::Channel(serenity::model::id::ChannelId(id)),
        Mention::Role(id) => serenity::model::mention::Mention::Role(serenity::model::id::RoleId(id)),
        Mention::User(id) => serenity::model::mention::Mention::User(serenity::model::id::UserId(id)),
    };
    let mut builder = serenity::utils::MessageBuilder(text.clone());
    builder.mention(&target);
    *text = builder.build();
}

/// Builds a message that mentions each target once, in order.
pub fn mention_message(targets: &Vec<MentionableAdapter>) -> (r: String)
    ensures
        r@ == mentions_text(adapters_view(targets@)),
{
    let n = targets.len();
    let mut text = String::new();
    let mut i: usize = 0;
    assert(adapters_view(targets@).take(0) =~= Seq::<Mention>::empty());
    while i < n
        invariant
            n == targets@.len(),
            i <= n,
            text@ == mentions_text(adapters_view(targets@).take(i as int)),
        decreases n - i,
    {
        let m = targets[i].mention();
        push_mention(&mut text, m);
        assert(adapters_view(targets@).take(i + 1).drop_last() =~= adapters_view(targets@).take(i as int));
        i = i + 1;
    }
    assert(adapters_view(targets@).take(n as int) =~= adapters_view(targets@));
    text
}

/// How often the spam message is sent, and the pause after each sending.
pub const SPAM_REPEAT: u64 = 10;
pub const SPAM_INTERVAL_MS: u64 = 1000;

/// Whom `spam` mentions: the users mentioned in the command if any; else the
/// roles mentioned if any; else the role named by the command's text; else
/// the member it names. None when nobody matches.
pub open spec fn spam_targets_spec(
    mentions: Seq<u64>,
    mention_roles: Seq<u64>,
    roles: Seq<RoleEntry>,
    members: Seq<MemberEntry>,
    target: Seq<char>,
) -> Option<Seq<Mention>> {
    if mentions.len() > 0 {
        Some(mentions.map_values(|u: u64| Mention::User(u)))
    } else if mention_roles.len() > 0 {
        Some(mention_roles.map_values(|r: u64| Mention::Role(r)))
    } else {
        match role_by_name_spec(roles, target) {
            Some(r) => Some(seq![Mention::Role(r)]),
            None => match member_named_spec(members, target) {
                Some(u) => Some(seq![Mention::User(u)]),
                None => None,
            },
        }
    }
}

/// `spam` mentions every mentioned user, in order, when users are mentioned;
/// when none is and some roles are, it mentions every mentioned role, in
/// order, so that its message is one role mention per mentioned role.
pub proof fn lemma_spam_targets_mentioned(
    mentions: Seq<u64>,
    mention_roles: Seq<u64>,
    roles: Seq<RoleEntry>,
    members: Seq<MemberEntry>,
    target: Seq<char>,
)
    ensures
        mentions.len() > 0 ==> (spam_targets_spec(mentions, mention_roles, roles, members, target) matches Some(ts)
            && ts.len() == mentions.len() && forall|i: int|
            0 <= i < mentions.len() ==> ts[i] == Mention::User(#[trigger] mentions[i])),
        mentions.len() == 0 && mention_roles.len() > 0 ==> (spam_targets_spec(
            mentions,
            mention_roles,
            roles,
            members,
            target,
        ) matches Some(ts) && ts.len() == mention_roles.len() && forall|i: int|
            0 <= i < mention_roles.len() ==> ts[i] == Mention::Role(#[trigger] mention_roles[i])),
{
}

/// Wraps each id as a mention of the given kind.
fn adapters_of(ids: &Vec<u64>, roles: bool) -> (r: Vec<MentionableAdapter>)
    ensures
        adapters_view(r@) == (if roles {
            ids@.map_values(|x: u64| Mention::Role(x))
        } else {
            ids@.map_values(|x: u64| Mention::User(x))
        }),
{
    let n = ids.len();
    let mut out: Vec<MentionableAdapter> = Vec::new();
    let mut i: usize = 0;
    while i < n
        invariant
            n == ids@.len(),
            i <= n,
            out@.len() == i,
            forall|j: int|
                0 <= j < i ==> (#[trigger] out@[j])@ == (if roles {
                    Mention::Role(ids@[j])
                } else {
                    Mention::User(ids@[j])
                }),
        decreases n - i,
    {
        let id = ids[i];
        let m = if roles {
            Mention::Role(id)
        } else {
            Mention::User(id)
        };
        out.push(MentionableAdapter::from(m));
        i = i + 1;
    }
    assert(adapters_view(out@) =~= (if roles {
        ids@.map_values(|x: u64| Mention::Role(x))
    } else {
        ids@.map_values(|x: u64| Mention::User(x))
    }));
    out
}

/// Picks whom `spam` mentions; see `spam_targets_spec`.
pub fn spam_targets(
    mentions: &Vec<u64>,
    mention_roles: &Vec<u64>,
    roles: &Vec<RoleEntry>,
    members: &Vec<MemberEntry>,
    target: &String,
) -> (r: Option<Vec<MentionableAdapter>>)
    ensures
        match spam_targets_spec(mentions@, mention_roles@, roles@, members@, target@) {
            Some(ts) => r matches Some(v) && adapters_view(v@) == ts,
            None => r is None,
        },
{
    if mentions.len() > 0 {
        Some(adapters_of(mentions, false))
    } else if mention_roles.len() > 0 {
        Some(adapters_of(mention_roles, true))
    } else {
        match role_by_name(roles, target) {
            Some(id) => {
                let v = vec![MentionableAdapter::from(Mention::Role(id))];
                assert(adapters_view(v@) =~= seq![Mention::Role(id)]);
                Some(v)
            },
            None => match member_named(members, target) {
                Some(id) => {
                    let v = vec![MentionableAdapter::from(Mention::User(id))];
                    assert(adapters_view(v@) =~= seq![Mention::User(id)]);
                    Some(v)
                },
                None => None,
            },
        }
    }
}

/// What `spam` does: tell that nobody matches, or send one message that
/// mentions every target, `times` times, pausing `interval_ms` after each.
pub enum SpamPlan {
    NoTarget(String),
    Repeat { message: String, times: u64, interval_ms: u64 },
}

/// Plans the `spam` command.
pub fn spam_plan(
    mentions: &Vec<u64>,
    mention_roles: &Vec<u64>,
    roles: &Vec<RoleEntry>,
    members: &Vec<MemberEntry>,
    target: &String,
) -> (r: SpamPlan)
    ensures
        match spam_targets_spec(mentions@, mention_roles@, roles@, members@, target@) {
            Some(ts) => r matches SpamPlan::Repeat { message, times, interval_ms } && message@
                == mentions_text(ts) && times == SPAM_REPEAT && interval_ms == SPAM_INTERVAL_MS,
            None => r matches SpamPlan::NoTarget(m) && m@ == "no user named "@ + target@,
        },
{
    match spam_targets(mentions, mention_roles, roles, members, target) {
        Some(targets) => SpamPlan::Repeat {
            message: mention_message(&targets),
            times: SPAM_REPEAT,
            interval_ms: SPAM_INTERVAL_MS,
        },
        None => {
            let mut m = String::from_str("no user named ");
            m.append(target.as_str());
            SpamPlan::NoTarget(m)
        },
    }
}

} // verus!
