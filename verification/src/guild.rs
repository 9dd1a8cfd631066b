use vstd::prelude::*;
use vstd::string::*;
use crate::text::{decimal, digit_char};

verus! {

/// The first element of `s` that satisfies `p`, if any.
pub open spec fn find_first<A>(s: Seq<A>, p: spec_fn(A) -> bool) -> Option<A>
    decreases s.len(),
{
    if s.len() == 0 {
        None
    } else if p(s[0]) {
        Some(s[0])
    } else {
        find_first(s.drop_first(), p)
    }
}

/// Searching from position `i` looks at `s[i]` first and then at the rest.
pub proof fn lemma_find_first_skip<A>(s: Seq<A>, p: spec_fn(A) -> bool, i: int)
    requires
        0 <= i < s.len(),
    ensures
        find_first(s.skip(i), p) == (if p(s[i]) {
            Some(s[i])
        } else {
            find_first(s.skip(i + 1), p)
        }),
{
    assert(s.skip(i).drop_first() =~= s.skip(i + 1));
}

/// Searching past the end finds nothing; searching from the start searches all.
pub proof fn lemma_find_first_ends<A>(s: Seq<A>, p: spec_fn(A) -> bool)
    ensures
        find_first(s.skip(s.len() as int), p) is None,
        s.skip(0) == s,
{
    assert(s.skip(s.len() as int) =~= Seq::<A>::empty());
    assert(s.skip(0) =~= s);
}

/// `find_first` gives the first element of `s` that satisfies `p`, and
/// nothing exactly when no element does.
pub proof fn lemma_find_first_is_first<A>(s: Seq<A>, p: spec_fn(A) -> bool)
    ensures
        match find_first(s, p) {
            Some(x) => exists|i: int|
                0 <= i < s.len() && s[i] == x && p(s[i]) && forall|j: int| 0 <= j < i ==> !p(#[trigger] s[j]),
            None => forall|i: int| 0 <= i < s.len() ==> !p(#[trigger] s[i]),
        },
    decreases s.len(),
{
    if s.len() > 0 {
        let t = s.drop_first();
        lemma_find_first_is_first(t, p);
        if p(s[0]) {
            assert(s[0] == s[0] && p(s[0]) && forall|j: int| 0 <= j < 0 ==> !p(#[trigger] s[j]));
        } else {
            match find_first(t, p) {
                Some(x) => {
                    let k = choose|k: int|
                        0 <= k < t.len() && t[k] == x && p(t[k]) && forall|j: int| 0 <= j < k ==> !p(#[trigger] t[j]);
                    assert(s[k + 1] == t[k]);
                    assert forall|j: int| 0 <= j < k + 1 implies !p(#[trigger] s[j]) by {
                        if j > 0 {
                            assert(s[j] == t[j - 1]);
                        }
                    }
                },
                None => {
                    assert forall|i: int| 0 <= i < s.len() implies !p(#[trigger] s[i]) by {
                        if i > 0 {
                            assert(s[i] == t[i - 1]);
                        }
                    }
                },
            }
        }
    }
}

/// A user's voice state in a guild: the voice channel the user is in, if any.
#[derive(Debug, Clone, Copy, PartialEq, Eq, Structural)]
pub struct VoiceStateEntry {
    pub user: u64,
    pub channel: Option<u64>,
}

/// The kind of a channel of a guild, as far as the commands tell kinds apart.
#[derive(Debug, Clone, Copy, PartialEq, Eq, Structural)]
pub enum ChannelKind {
    /// A guild channel of voice type.
    Voice,
    /// A guild channel of another type.
    OtherGuildChannel,
    /// A channel that is not a guild channel (a category or a private one).
    NotGuildChannel,
}

/// A channel of a guild.
pub struct ChannelEntry {
    pub id: u64,
    pub name: String,
    pub kind: ChannelKind,
}

/// A role of a guild.
pub struct RoleEntry {
    pub id: u64,
    pub name: String,
}

/// A member of a guild: the user's id, name and discriminator, and the
/// member's nickname in the guild.
pub struct MemberEntry {
    pub user: u64,
    pub name: String,
    pub discriminator: u16,
    pub nick: Option<String>,
}

pub open spec fn state_of_user(user: u64) -> spec_fn(VoiceStateEntry) -> bool {
    |e: VoiceStateEntry| e.user == user
}

/// The voice state of `user` among `states`.
pub open spec fn voice_state_spec(states: Seq<VoiceStateEntry>, user: u64) -> Option<VoiceStateEntry> {
    find_first(states, state_of_user(user))
}

/// The voice channel of `user`: none when the user has no voice state or
/// the voice state has no channel.
pub open spec fn voice_channel_spec(states: Seq<VoiceStateEntry>, user: u64) -> Option<u64> {
    match voice_state_spec(states, user) {
        Some(e) => e.channel,
        None => None,
    }
}

/// The voice channel of `user` is the channel of the first voice state of
/// `user`; there is none when no voice state is the user's, or when the first
/// one has no channel.
pub proof fn lemma_voice_channel_is_first_state(states: Seq<VoiceStateEntry>, user: u64)
    ensures
        match voice_channel_spec(states, user) {
            Some(c) => exists|i: int|
                0 <= i < states.len() && states[i].user == user && states[i].channel == Some(c) && forall|j: int|
                    0 <= j < i ==> (#[trigger] states[j]).user != user,
            None => forall|i: int|
                0 <= i < states.len() && (#[trigger] states[i]).user == user ==> exists|k: int|
                    0 <= k <= i && states[k].user == user && states[k].channel is None && forall|j: int|
                        0 <= j < k ==> (#[trigger] states[j]).user != user,
        },
{
    lemma_find_first_is_first(states, state_of_user(user));
    if voice_channel_spec(states, user) is None {
        if let Some(e) = voice_state_spec(states, user) {
            let k = choose|k: int|
                0 <= k < states.len() && states[k] == e && state_of_user(user)(states[k]) && forall|j: int|
                    0 <= j < k ==> !state_of_user(user)(#[trigger] states[j]);
            assert forall|i: int| 0 <= i < states.len() && (#[trigger] states[i]).user == user implies exists|k2: int|
                0 <= k2 <= i && states[k2].user == user && states[k2].channel is None && forall|j: int|
                    0 <= j < k2 ==> (#[trigger] states[j]).user != user by {
                if i < k {
                    assert(!state_of_user(user)(states[i]));
                }
                assert(forall|j: int| 0 <= j < k ==> (#[trigger] states[j]).user != user) by {
                    assert forall|j: int| 0 <= j < k implies (#[trigger] states[j]).user != user by {
                        assert(!state_of_user(user)(states[j]));
                    }
                }
            }
        }
    }
}

/// Looks up the voice state of `user`.
pub fn voice_state_of(states: &Vec<VoiceStateEntry>, user: u64) -> (r: Option<VoiceStateEntry>)
    ensures
        r == voice_state_spec(states@, user),
{
    let n = states.len();
    let ghost p = state_of_user(user);
    proof {
        lemma_find_first_ends(states@, p);
    }
    let mut i: usize = 0;
    while i < n
        invariant
            n == states@.len(),
            i <= n,
            p == state_of_user(user),
            find_first(states@, p) == find_first(states@.skip(i as int), p),
        decreases n - i,
    {
        proof {
            lemma_find_first_skip(states@, p, i as int);
        }
        if states[i].user == user {
            return Some(states[i]);
        }
        i = i + 1;
    }
    proof {
        lemma_find_first_ends(states@, p);
    }
    None
}

/// The voice channel of `user`, if the user is in one.
pub fn voice_channel_of(states: &Vec<VoiceStateEntry>, user: u64) -> (r: Option<u64>)
    ensures
        r == voice_channel_spec(states@, user),
{
    match voice_state_of(states, user) {
        Some(e) => e.channel,
        None => None,
    }
}

/// The users whose voice state is in channel `ch`, in the order of `states`.
pub open spec fn users_in_channel_spec(states: Seq<VoiceStateEntry>, ch: u64) -> Seq<u64>
    decreases states.len(),
{
    if states.len() == 0 {
        Seq::empty()
    } else {
        let rest = users_in_channel_spec(states.drop_last(), ch);
        if states.last().channel == Some(ch) {
            rest.push(states.last().user)
        } else {
            rest
        }
    }
}

/// Every user that `users_in_channel_spec` lists has a voice state in `ch`,
/// and every user with a voice state in `ch` is listed.
pub proof fn lemma_users_in_channel_exact(states: Seq<VoiceStateEntry>, ch: u64)
    ensures
        users_in_channel_spec(states, ch).len() <= states.len(),
        forall|j: int|
            #![trigger users_in_channel_spec(states, ch)[j]]
            0 <= j < users_in_channel_spec(states, ch).len() ==> exists|i: int|
                0 <= i < states.len() && states[i].user == users_in_channel_spec(states, ch)[j]
                    && (#[trigger] states[i]).channel == Some(ch),
        forall|i: int|
            0 <= i < states.len() && (#[trigger] states[i]).channel == Some(ch) ==> users_in_channel_spec(
                states,
                ch,
            ).contains(states[i].user),
    decreases states.len(),
{
    if states.len() > 0 {
        let init = states.drop_last();
        lemma_users_in_channel_exact(init, ch);
        let r = users_in_channel_spec(states, ch);
        let r0 = users_in_channel_spec(init, ch);
        assert forall|j: int| #![trigger r[j]] 0 <= j < r.len() implies exists|i: int|
            0 <= i < states.len() && states[i].user == r[j] && (#[trigger] states[i]).channel == Some(ch) by {
            if j < r0.len() {
                assert(r[j] == r0[j]);
                let i = choose|i: int| 0 <= i < init.len() && (#[trigger] init[i]).channel == Some(ch) && init[i].user == r0[j];
                assert(states[i] == init[i]);
            } else {
                let k = states.len() - 1;
                assert(states[k] == states.last());
                assert(states.last().channel == Some(ch));
                assert(r[j] == states.last().user);
                assert(0 <= k < states.len() && states[k].channel == Some(ch) && states[k].user == r[j]);
            }
        }
        assert forall|i: int| 0 <= i < states.len() && (#[trigger] states[i]).channel == Some(ch) implies r.contains(
            states[i].user,
        ) by {
            if i < init.len() {
                assert(init[i] == states[i]);
                assert(r0.contains(states[i].user));
                let j = choose|j: int| 0 <= j < r0.len() && r0[j] == states[i].user;
                assert(r[j] == r0[j]);
            } else {
                assert(r[r.len() - 1] == states[i].user);
            }
        }
    }
}

/// Collects the users whose voice state is in channel `ch`.
pub fn users_in_channel(states: &Vec<VoiceStateEntry>, ch: u64) -> (r: Vec<u64>)
    ensures
        r@ == users_in_channel_spec(states@, ch),
{
    let n = states.len();
    let mut out: Vec<u64> = Vec::new();
    let mut i: usize = 0;
    assert(states@.take(0) =~= Seq::<VoiceStateEntry>::empty());
    while i < n
        invariant
            n == states@.len(),
            i <= n,
            out@ == users_in_channel_spec(states@.take(i as int), ch),
        decreases n - i,
    {
        assert(states@.take(i + 1).drop_last() =~= states@.take(i as int));
        if states[i].channel == Some(ch) {
            out.push(states[i].user);
        }
        i = i + 1;
    }
    assert(states@.take(n as int) =~= states@);
    out
}

pub open spec fn voice_channel_with_name(name: Seq<char>) -> spec_fn(ChannelEntry) -> bool {
    |c: ChannelEntry| c.kind == ChannelKind::Voice && c.name@ == name
}

/// The id of the first voice channel called `name`.
pub open spec fn voice_channel_named_spec(channels: Seq<ChannelEntry>, name: Seq<char>) -> Option<u64> {
    match find_first(channels, voice_channel_with_name(name)) {
        Some(c) => Some(c.id),
        None => None,
    }
}

/// The channel that `voice_channel_named_spec` finds is a voice channel whose
/// name is exactly `name`, and the first such channel; when no voice channel
/// is called exactly `name`, none is found.
pub proof fn lemma_voice_channel_named_exact(channels: Seq<ChannelEntry>, name: Seq<char>)
    ensures
        match voice_channel_named_spec(channels, name) {
            Some(id) => exists|i: int|
                0 <= i < channels.len() && channels[i].id == id && channels[i].kind == ChannelKind::Voice
                    && channels[i].name@ == name && forall|j: int|
                    0 <= j < i ==> !((#[trigger] channels[j]).kind == ChannelKind::Voice && channels[j].name@ == name),
            None => forall|i: int|
                0 <= i < channels.len() ==> !((#[trigger] channels[i]).kind == ChannelKind::Voice && channels[i].name@
                    == name),
        },
{
    lemma_find_first_is_first(channels, voice_channel_with_name(name));
}

/// Finds the first voice channel of the guild whose name is `name`.
pub fn voice_channel_named(channels: &Vec<ChannelEntry>, name: &String) -> (r: Option<u64>)
    ensures
        r == voice_channel_named_spec(channels@, name@),
        match r {
            Some(id) => exists|i: int|
                0 <= i < channels@.len() && channels@[i].id == id && channels@[i].kind == ChannelKind::Voice
                    && channels@[i].name@ == name@ && forall|j: int|
                    0 <= j < i ==> !((#[trigger] channels@[j]).kind == ChannelKind::Voice && channels@[j].name@ == name@),
            None => forall|i: int|
                0 <= i < channels@.len() ==> !((#[trigger] channels@[i]).kind == ChannelKind::Voice
                    && channels@[i].name@ == name@),
        },
{
    proof {
        lemma_voice_channel_named_exact(channels@, name@);
    }
    let n = channels.len();
    let ghost p = voice_channel_with_name(name@);
    proof {
        lemma_find_first_ends(channels@, p);
    }
    let mut i: usize = 0;
    while i < n
        invariant
            n == channels@.len(),
            i <= n,
            p == voice_channel_with_name(name@),
            find_first(channels@, p) == find_first(channels@.skip(i as int), p),
        decreases n - i,
    {
        proof {
            lemma_find_first_skip(channels@, p, i as int);
        }
        let c = &channels[i];
        if c.kind == ChannelKind::Voice && c.name == *name {
            proof {
                lemma_voice_channel_named_exact(channels@, name@);
            }
            return Some(c.id);
        }
        i = i + 1;
    }
    proof {
        lemma_find_first_ends(channels@, p);
    }
    None
}

pub open spec fn role_with_name(name: Seq<char>) -> spec_fn(RoleEntry) -> bool {
    |r: RoleEntry| r.name@ == name
}

/// The id of the first role called `name`.
pub open spec fn role_by_name_spec(roles: Seq<RoleEntry>, name: Seq<char>) -> Option<u64> {
    match find_first(roles, role_with_name(name)) {
        Some(r) => Some(r.id),
        None => None,
    }
}

/// The role that `role_by_name_spec` finds is called exactly `name`, and is
/// the first such role; when no role is called exactly `name`, none is found.
pub proof fn lemma_role_by_name_exact(roles: Seq<RoleEntry>, name: Seq<char>)
    ensures
        match role_by_name_spec(roles, name) {
            Some(id) => exists|i: int|
                0 <= i < roles.len() && roles[i].id == id && roles[i].name@ == name && forall|j: int|
                    0 <= j < i ==> (#[trigger] roles[j]).name@ != name,
            None => forall|i: int| 0 <= i < roles.len() ==> (#[trigger] roles[i]).name@ != name,
        },
{
    lemma_find_first_is_first(roles, role_with_name(name));
}

/// Finds the first role of the guild whose name is `name`, as serenity's
/// `Guild::role_by_name` does over the guild's roles.
pub fn role_by_name(roles: &Vec<RoleEntry>, name: &String) -> (r: Option<u64>)
    ensures
        r == role_by_name_spec(roles@, name@),
{
    let n = roles.len();
    let ghost p = role_with_name(name@);
    proof {
        lemma_find_first_ends(roles@, p);
    }
    let mut i: usize = 0;
    while i < n
        invariant
            n == roles@.len(),
            i <= n,
            p == role_with_name(name@),
            find_first(roles@, p) == find_first(roles@.skip(i as int), p),
        decreases n - i,
    {
        proof {
            lemma_find_first_skip(roles@, p, i as int);
        }
        if roles[i].name == *name {
            return Some(roles[i].id);
        }
        i = i + 1;
    }
    proof {
        lemma_find_first_ends(roles@, p);
    }
    None
}

/// The part of `s` before its first `c`, and the part after it.
pub open spec fn split_once(s: Seq<char>, c: char) -> Option<(Seq<char>, Seq<char>)>
    decreases s.len(),
{
    if s.len() == 0 {
        None
    } else if s[0] == c {
        Some((Seq::empty(), s.drop_first()))
    } else {
        match split_once(s.drop_first(), c) {
            Some((a, b)) => Some((seq![s[0]] + a, b)),
            None => None,
        }
    }
}

pub open spec fn is_ascii_digit(c: char) -> bool {
    48 <= (c as u32) <= 57
}

/// The value of a string of decimal digits.
pub open spec fn digits_value(t: Seq<char>) -> nat
    decreases t.len(),
{
    if t.len() == 0 {
        0
    } else {
        digits_value(t.drop_last()) * 10 + ((t.last() as u32) - 48) as nat
    }
}

/// The decimal notation of `n` is made of ASCII digits, starts with a digit
/// other than zero unless `n` is zero, and reads back as `n`.
pub proof fn lemma_decimal_reads_back(n: nat)
    ensures
        decimal(n).len() > 0,
        forall|i: int| 0 <= i < decimal(n).len() ==> is_ascii_digit(#[trigger] decimal(n)[i]),
        n > 0 ==> decimal(n)[0] != '0',
        digits_value(decimal(n)) == n,
    decreases n,
{
    let r = (n % 10) as int;
    assert(digit_char(r) as u32 == r + 48);
    if n < 10 {
        assert(decimal(n).drop_last() =~= Seq::<char>::empty());
        assert(digits_value(decimal(n).drop_last()) == 0);
        assert(decimal(n).last() == digit_char(r));
    } else {
        let q = n / 10;
        let d = decimal(n);
        lemma_decimal_reads_back(q);
        assert(d.drop_last() =~= decimal(q));
        assert(d.last() == digit_char(r));
        assert(digits_value(d) == q * 10 + r);
        assert(d[0] == decimal(q)[0]);
        assert forall|i: int| 0 <= i < d.len() implies is_ascii_digit(#[trigger] d[i]) by {
            if i < d.len() - 1 {
                assert(d[i] == decimal(q)[i]);
            }
        }
    }
}

/// What parsing `t` as an unsigned integer reads, before any bound on its
/// size: an optional `+` followed by at least one decimal digit.
pub open spec fn unsigned_value(t: Seq<char>) -> Option<nat> {
    let d = if t.len() > 0 && t[0] == '+' {
        t.drop_first()
    } else {
        t
    };
    if d.len() > 0 && forall|i: int| 0 <= i < d.len() ==> is_ascii_digit(#[trigger] d[i]) {
        Some(digits_value(d))
    } else {
        None
    }
}

/// A user tag `name#discriminator`: the name before the first `#`, and a
/// discriminator of at most 9999 after it.
pub open spec fn user_tag_spec(s: Seq<char>) -> Option<(Seq<char>, u16)> {
    match split_once(s, '#') {
        Some((name, rest)) => match unsigned_value(rest) {
            Some(v) => if v <= 9999 {
                Some((name, v as u16))
            } else {
                None
            },
            None => None,
        },
        None => None,
    }
}

/// serenity's `utils::parse_user_tag`: it splits the text at its first `#`
/// and parses what follows as a `u16` (std's `from_str`: an optional `+`,
/// then decimal digits, no overflow), refusing values above 9999.
#[verifier::external_body]
fn user_tag(s: &str) -> (r: Option<(String, u16)>)
    ensures
        match user_tag_spec(s@) {
            Some((name, d)) => r matches Some((n, e)) && n@ == name && e == d,
            None => r is None,
        },
{
    match serenity::utils::parse_user_tag(s) {
        Some((n, d)) => Some((n.to_string(), d)),
        None => None,
    }
}

pub open spec fn member_with_tag(username: Seq<char>, discriminator: Option<u16>) -> spec_fn(MemberEntry) -> bool {
    |m: MemberEntry|
        m.name@ == username && match discriminator {
            Some(d) => m.discriminator == d,
            None => true,
        }
}

pub open spec fn member_with_nick(nick: Seq<char>) -> spec_fn(MemberEntry) -> bool {
    |m: MemberEntry| m.nick matches Some(n) && n@ == nick
}

/// The member that `name` designates: by user name (and discriminator, where
/// `name` is a user tag) first, then by nickname.
pub open spec fn member_named_spec(members: Seq<MemberEntry>, name: Seq<char>) -> Option<u64> {
    let by_name = match user_tag_spec(name) {
        Some((u, d)) => find_first(members, member_with_tag(u, Some(d))),
        None => find_first(members, member_with_tag(name, None)),
    };
    match by_name {
        Some(m) => Some(m.user),
        None => match find_first(members, member_with_nick(name)) {
            Some(m) => Some(m.user),
            None => None,
        },
    }
}

/// The member that `member_named_spec` designates is the first member whose
/// user name is `name` (where `name` is a user tag `u#d`: whose user name is
/// `u` and whose discriminator is `d`); when no member has such a name, it is
/// the first member whose nickname is `name`; and there is none when no member
/// has either.
pub proof fn lemma_member_named_exact(members: Seq<MemberEntry>, name: Seq<char>)
    ensures
        match member_named_spec(members, name) {
            Some(id) => exists|i: int|
                0 <= i < members.len() && members[i].user == id && ((match user_tag_spec(name) {
                    Some((u, d)) => members[i].name@ == u && members[i].discriminator == d,
                    None => members[i].name@ == name,
                } && forall|j: int|
                    0 <= j < i ==> !(match user_tag_spec(name) {
                        Some((u, d)) => (#[trigger] members[j]).name@ == u && members[j].discriminator == d,
                        None => members[j].name@ == name,
                    })) || ((forall|j: int|
                    0 <= j < members.len() ==> !(match user_tag_spec(name) {
                        Some((u, d)) => (#[trigger] members[j]).name@ == u && members[j].discriminator == d,
                        None => members[j].name@ == name,
                    })) && (members[i].nick matches Some(k) && k@ == name) && forall|j: int|
                    0 <= j < i ==> !((#[trigger] members[j]).nick matches Some(k) && k@ == name))),
            None => forall|i: int|
                0 <= i < members.len() ==> !(match user_tag_spec(name) {
                    Some((u, d)) => (#[trigger] members[i]).name@ == u && members[i].discriminator == d,
                    None => members[i].name@ == name,
                }) && !(members[i].nick matches Some(k) && k@ == name),
        },
{
    let p = match user_tag_spec(name) {
        Some((u, d)) => member_with_tag(u, Some(d)),
        None => member_with_tag(name, None),
    };
    lemma_find_first_is_first(members, p);
    lemma_find_first_is_first(members, member_with_nick(name));
}

/// Finds the member that `name` designates, as serenity's
/// `Guild::member_named` does over the guild's members.
pub fn member_named(members: &Vec<MemberEntry>, name: &String) -> (r: Option<u64>)
    ensures
        r == member_named_spec(members@, name@),
{
    let (username, discriminator) = match user_tag(name.as_str()) {
        Some((u, d)) => (u, Some(d)),
        None => (name.clone(), None),
    };
    let n = members.len();
    let ghost p = member_with_tag(username@, discriminator);
    assert(match user_tag_spec(name@) {
        Some((u, d)) => p == member_with_tag(u, Some(d)),
        None => p == member_with_tag(name@, None),
    });
    proof {
        lemma_find_first_ends(members@, p);
    }
    let mut i: usize = 0;
    while i < n
        invariant
            n == members@.len(),
            i <= n,
            p == member_with_tag(username@, discriminator),
            match user_tag_spec(name@) {
                Some((u, d)) => p == member_with_tag(u, Some(d)),
                None => p == member_with_tag(name@, None),
            },
            find_first(members@, p) == find_first(members@.skip(i as int), p),
        decreases n - i,
    {
        proof {
            lemma_find_first_skip(members@, p, i as int);
        }
        let m = &members[i];
        let tag_matches = match discriminator {
            Some(d) => m.discriminator == d,
            None => true,
        };
        if m.name == username && tag_matches {
            return Some(m.user);
        }
        i = i + 1;
    }
    proof {
        lemma_find_first_ends(members@, p);
    }
    let ghost q = member_with_nick(name@);
    let mut j: usize = 0;
    while j < n
        invariant
            n == members@.len(),
            j <= n,
            q == member_with_nick(name@),
            find_first(members@, p) is None,
            match user_tag_spec(name@) {
                Some((u, d)) => p == member_with_tag(u, Some(d)),
                None => p == member_with_tag(name@, None),
            },
            find_first(members@, q) == find_first(members@.skip(j as int), q),
        decreases n - j,
    {
        proof {
            lemma_find_first_skip(members@, q, j as int);
        }
        let m = &members[j];
        let nick_matches = match &m.nick {
            Some(k) => *k == *name,
            None => false,
        };
        if nick_matches {
            return Some(m.user);
        }
        j = j + 1;
    }
    proof {
        lemma_find_first_ends(members@, q);
    }
    None
}

} // verus!
