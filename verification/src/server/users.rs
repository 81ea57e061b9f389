//! What the user commands say.

use crate::text::{chars_of, decimal, push_decimal, same_text, texts};
use vstd::prelude::*;

verus! {

/// A user as the store lists them.
#[derive(Debug)]
pub struct UserInfo {
    /// Username.
    pub username: String,
    /// Whether the user may log in.
    pub enabled: bool,
    /// When the user last logged in, in seconds since 1970.
    pub last_login: Option<i64>,
    /// Failed logins since the last good one.
    pub failed_attempts: u32,
    /// Until when the user is locked out, in seconds since 1970.
    pub locked_until: Option<i64>,
}

/// How long ago `ts` was at `now`.
pub open spec fn ago(ts: i64, now: i64) -> Seq<char> {
    let diff = now - ts;
    if diff < 60 {
        "just now"@
    } else if diff < 3600 {
        decimal((diff / 60) as nat) + " min ago"@
    } else if diff < 86400 {
        decimal((diff / 3600) as nat) + " hours ago"@
    } else {
        decimal((diff / 86400) as nat) + " days ago"@
    }
}

/// Says how long ago a time was at `now`.
pub fn format_timestamp_at(ts: i64, now: i64) -> (s: String)
    requires
        i64::MIN <= now - ts <= i64::MAX,
    ensures
        s@ == ago(ts, now),
{
    let diff: i64 = now - ts;
    if diff < 60 {
        return String::from_str("just now");
    }
    let d: u64 = diff as u64;
    let mut s = String::new();
    if d < 3600 {
        push_decimal(&mut s, d / 60);
        s.append(" min ago");
        proof {
            assert(s@ =~= ago(ts, now));
        }
    } else if d < 86400 {
        push_decimal(&mut s, d / 3600);
        s.append(" hours ago");
        proof {
            assert(s@ =~= ago(ts, now));
        }
    } else {
        push_decimal(&mut s, d / 86400);
        s.append(" days ago");
        proof {
            assert(s@ =~= ago(ts, now));
        }
    }
    s
}

/// So many blanks.
pub open spec fn blanks(n: nat) -> Seq<char> {
    Seq::new(n, |i: int| ' ')
}

/// A text filled up with blanks to a width.
pub open spec fn padded(s: Seq<char>, width: nat) -> Seq<char> {
    if s.len() < width {
        s + blanks((width - s.len()) as nat)
    } else {
        s
    }
}

fn push_padded(out: &mut String, text: &str, width: usize)
    ensures
        final(out)@ == old(out)@ + padded(text@, width as nat),
{
    let chars = chars_of(text);
    out.append(text);
    let mut n: usize = chars.len();
    let ghost start = old(out)@ + text@;
    proof {
        assert(start + blanks(0) =~= start);
    }
    if n >= width {
        return;
    }
    while n < width
        invariant
            chars@.len() <= n <= width,
            out@ == start + blanks((n - chars@.len()) as nat),
        decreases width - n,
    {
        out.push(' ');
        proof {
            assert(blanks((n + 1 - chars@.len()) as nat) =~= blanks((n - chars@.len()) as nat).push(
                ' ',
            ));
            assert(out@ =~= start + blanks((n + 1 - chars@.len()) as nat));
        }
        n += 1;
    }
    proof {
        assert(out@ =~= old(out)@ + padded(text@, width as nat));
    }
}

/// A row of the table of users.
pub open spec fn row(
    a: Seq<char>,
    b: Seq<char>,
    c: Seq<char>,
    d: Seq<char>,
    e: Seq<char>,
) -> Seq<char> {
    padded(a, 20) + " "@ + padded(b, 10) + " "@ + padded(c, 20) + " "@ + padded(d, 8) + " "@ + padded(
        e,
        20,
    )
}

fn table_row(a: &str, b: &str, c: &str, d: &str, e: &str) -> (s: String)
    ensures
        s@ == row(a@, b@, c@, d@, e@),
{
    let mut s = String::new();
    push_padded(&mut s, a, 20);
    proof {
        assert(s@ =~= padded(a@, 20));
    }
    s.append(" ");
    push_padded(&mut s, b, 10);
    s.append(" ");
    push_padded(&mut s, c, 20);
    s.append(" ");
    push_padded(&mut s, d, 8);
    s.append(" ");
    push_padded(&mut s, e, 20);
    s
}

/// The row of a user at `now`.
pub open spec fn user_row(u: UserInfo, now: i64) -> Seq<char> {
    row(
        u.username@,
        if u.enabled {
            "enabled"@
        } else {
            "disabled"@
        },
        match u.last_login {
            Some(ts) => ago(ts, now),
            None => "never"@,
        },
        decimal(u.failed_attempts as nat),
        match u.locked_until {
            Some(ts) => ago(ts, now),
            None => "-"@,
        },
    )
}

/// The line under the heading.
pub open spec fn rule_line() -> Seq<char> {
    Seq::new(84, |i: int| '-')
}

/// The lines that list users at `now`.
pub open spec fn list_lines(users: Seq<UserInfo>, now: i64) -> Seq<Seq<char>> {
    if users.len() == 0 {
        seq!["No users configured"@]
    } else {
        seq![
            row("Username"@, "Status"@, "Last Login"@, "Failed"@, "Locked Until"@),
            rule_line(),
        ] + Seq::new(users.len(), |i: int| user_row(users[i], now))
    }
}

/// Whether the times of a user can be held against `now`.
pub open spec fn times_fit(u: UserInfo, now: i64) -> bool {
    &&& u.last_login matches Some(ts) ==> i64::MIN <= now - ts <= i64::MAX
    &&& u.locked_until matches Some(ts) ==> i64::MIN <= now - ts <= i64::MAX
}

fn row_of(u: &UserInfo, now: i64) -> (s: String)
    requires
        times_fit(*u, now),
    ensures
        s@ == user_row(*u, now),
{
    let last_login = match u.last_login {
        Some(ts) => format_timestamp_at(ts, now),
        None => String::from_str("never"),
    };
    let locked_until = match u.locked_until {
        Some(ts) => format_timestamp_at(ts, now),
        None => String::from_str("-"),
    };
    let mut failed = String::new();
    push_decimal(&mut failed, u.failed_attempts as u64);
    proof {
        assert(failed@ =~= decimal(u.failed_attempts as nat));
    }
    table_row(
        u.username.as_str(),
        if u.enabled {
            "enabled"
        } else {
            "disabled"
        },
        last_login.as_str(),
        failed.as_str(),
        locked_until.as_str(),
    )
}

/// The table of users at `now`, line by line.
pub fn user_list(users: &Vec<UserInfo>, now: i64) -> (v: Vec<String>)
    requires
        forall|i: int| 0 <= i < users@.len() ==> times_fit(#[trigger] users@[i], now),
    ensures
        texts(v@) == list_lines(users@, now),
{
    let mut v: Vec<String> = Vec::new();
    if users.len() == 0 {
        v.push(String::from_str("No users configured"));
        proof {
            assert(texts(v@) =~= list_lines(users@, now));
        }
        return v;
    }
    v.push(table_row("Username", "Status", "Last Login", "Failed", "Locked Until"));
    let mut rule = String::new();
    let mut n: usize = 0;
    while n < 84
        invariant
            n <= 84,
            rule@ == Seq::new(n as nat, |i: int| '-'),
        decreases 84 - n,
    {
        rule.push('-');
        proof {
            assert(rule@ =~= Seq::new((n + 1) as nat, |i: int| '-'));
        }
        n += 1;
    }
    v.push(rule);
    let ghost head = texts(v@);
    let mut i: usize = 0;
    proof {
        assert(head =~= seq![
            row("Username"@, "Status"@, "Last Login"@, "Failed"@, "Locked Until"@),
            rule_line(),
        ]);
        assert(texts(v@) =~= head + Seq::new(0, |k: int| user_row(users@[k], now)));
    }
    while i < users.len()
        invariant
            i <= users@.len(),
            forall|k: int| 0 <= k < users@.len() ==> times_fit(#[trigger] users@[k], now),
            texts(v@) == head + Seq::new(i as nat, |k: int| user_row(users@[k], now)),
        decreases users@.len() - i,
    {
        let ghost before = v@;
        let r = row_of(&users[i], now);
        v.push(r);
        proof {
            assert(texts(v@) =~= texts(before).push(user_row(users@[i as int], now)));
            assert(texts(v@) =~= head + Seq::new((i + 1) as nat, |k: int| user_row(users@[k], now)));
        }
        i += 1;
    }
    v
}

/// What the store did for a command on a user.
#[derive(Debug, Clone, Copy, PartialEq, Eq, Structural)]
pub enum UserChange {
    Added,
    Removed,
    Disabled,
    Enabled,
    PasswordChanged,
    Unlocked,
}

/// What is said after a command on a user.
pub open spec fn change_text(change: UserChange, name: Seq<char>, found: bool) -> Seq<char> {
    if !found {
        "User '"@ + name + "' not found"@
    } else {
        match change {
            UserChange::Added => "User '"@ + name + "' added successfully"@,
            UserChange::Removed => "User '"@ + name + "' removed"@,
            UserChange::Disabled => "User '"@ + name + "' disabled"@,
            UserChange::Enabled => "User '"@ + name + "' enabled"@,
            UserChange::PasswordChanged => "Password changed for user '"@ + name + "'"@,
            UserChange::Unlocked => "User '"@ + name + "' unlocked (failed attempts reset)"@,
        }
    }
}

/// What to say after a command on a user, who was found or not.
pub fn change_message(change: UserChange, name: &str, found: bool) -> (s: String)
    ensures
        s@ == change_text(change, name@, found),
{
    if found && matches!(change, UserChange::PasswordChanged) {
        let mut s = String::from_str("Password changed for user '");
        s.append(name);
        s.append("'");
        return s;
    }
    let mut s = String::from_str("User '");
    s.append(name);
    if !found {
        s.append("' not found");
        return s;
    }
    s.append(
        match change {
            UserChange::Added => "' added successfully",
            UserChange::Removed => "' removed",
            UserChange::Disabled => "' disabled",
            UserChange::Enabled => "' enabled",
            UserChange::Unlocked => "' unlocked (failed attempts reset)",
            UserChange::PasswordChanged => "'",
        },
    );
    s
}

/// The password of two entries, which must agree.
pub fn confirm_password(first: String, second: &str) -> (r: Result<String, String>)
    ensures
        match r {
            Ok(p) => first@ == second@ && p == first,
            Err(m) => first@ != second@ && m@ == "Passwords do not match"@,
        },
{
    if same_text(first.as_str(), second) {
        Ok(first)
    } else {
        Err(String::from_str("Passwords do not match"))
    }
}

/// The columns of the table start at the same place in every row whose entries fit.
pub proof fn law_columns_line_up(a: Seq<char>, b: Seq<char>, c: Seq<char>, d: Seq<char>, e: Seq<char>)
    requires
        a.len() <= 20,
        b.len() <= 10,
        c.len() <= 20,
        d.len() <= 8,
        e.len() <= 20,
    ensures
        row(a, b, c, d, e).len() == 82,
        row(a, b, c, d, e).subrange(0, a.len() as int) == a,
        row(a, b, c, d, e).subrange(21, 21int + b.len()) == b,
        row(a, b, c, d, e).subrange(32, 32int + c.len()) == c,
        row(a, b, c, d, e).subrange(53, 53int + d.len()) == d,
        row(a, b, c, d, e).subrange(62, 62int + e.len()) == e,
{
    reveal_strlit(" ");
    let r = row(a, b, c, d, e);
    assert(padded(a, 20).len() == 20);
    assert(padded(b, 10).len() == 10);
    assert(padded(c, 20).len() == 20);
    assert(padded(d, 8).len() == 8);
    assert(padded(e, 20).len() == 20);
    assert(r.subrange(0, a.len() as int) =~= a);
    assert(r.subrange(21, 21int + b.len()) =~= b);
    assert(r.subrange(32, 32int + c.len()) =~= c);
    assert(r.subrange(53, 53int + d.len()) =~= d);
    assert(r.subrange(62, 62int + e.len()) =~= e);
}

/// A time is told in the largest unit that has passed, in whole ones.
pub proof fn law_times_are_told_in_whole_units(ts: i64, now: i64, n: nat)
    ensures
        now - ts < 60 ==> ago(ts, now) == "just now"@,
        60 <= now - ts < 3600 && n * 60 <= now - ts < (n + 1) * 60 ==> ago(ts, now) == decimal(n)
            + " min ago"@,
        3600 <= now - ts < 86400 && n * 3600 <= now - ts < (n + 1) * 3600 ==> ago(ts, now)
            == decimal(n) + " hours ago"@,
        86400 <= now - ts && n * 86400 <= now - ts < (n + 1) * 86400 ==> ago(ts, now) == decimal(n)
            + " days ago"@,
{
}

/// The table has a line for each user, in their order, below its head.
pub proof fn law_every_user_has_a_line(users: Seq<UserInfo>, now: i64, i: int)
    requires
        0 <= i < users.len(),
    ensures
        list_lines(users, now).len() == users.len() + 2,
        list_lines(users, now)[i + 2] == user_row(users[i], now),
{
}

} // verus!
