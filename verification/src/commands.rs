//! Small decisions of the commands: prefixes, log levels, translation targets and the
//! profile that the roast command sends to the chatbot.
use vstd::prelude::*;
use crate::animanga::{joined, text_views};
use crate::text::{
    decimal_digits, lowercase_of, push_char, push_decimal, push_str, signed_decimal,
    signed_decimal_string, to_lowercase,
};

verus! {

/// The prefix of commands in a guild: the one it set, else `!`.
pub fn guild_prefix(prefix: Option<&String>) -> (p: String)
    ensures
        p@ == match prefix {
            Some(s) => s@,
            None => "!"@,
        },
{
    match prefix {
        Some(s) => s.clone(),
        None => String::from_str("!"),
    }
}

/// How much the bot logs.
#[derive(Debug, Clone, Copy, PartialEq, Eq, Structural)]
pub enum LogLevel {
    Trace,
    Debug,
    Info,
    Warn,
    Error,
}

/// The log level that the configuration names: `trace`, `debug`, `warn` or `error`, and
/// `info` for anything else.
pub fn log_level(name: &str) -> (l: LogLevel)
    ensures
        l == if name@ == "trace"@ {
            LogLevel::Trace
        } else if name@ == "debug"@ {
            LogLevel::Debug
        } else if name@ == "warn"@ {
            LogLevel::Warn
        } else if name@ == "error"@ {
            LogLevel::Error
        } else {
            LogLevel::Info
        },
{
    let n = String::from_str(name);
    if n.eq(&String::from_str("trace")) {
        LogLevel::Trace
    } else if n.eq(&String::from_str("debug")) {
        LogLevel::Debug
    } else if n.eq(&String::from_str("warn")) {
        LogLevel::Warn
    } else if n.eq(&String::from_str("error")) {
        LogLevel::Error
    } else {
        LogLevel::Info
    }
}

/// The language a translation goes to: the one asked for, in lower case, else English.
pub fn translate_target(target: Option<&str>) -> (lang: String)
    ensures
        lang@ == match target {
            Some(t) => lowercase_of(t@),
            None => "en"@,
        },
{
    match target {
        Some(t) => to_lowercase(t),
        None => String::from_str("en"),
    }
}

/// How many of the target's last messages the roast command gathers.
pub const ROAST_MESSAGES: usize = 25;

/// The last messages of a roast target, numbered from 1: `1:first,2:second,...`.
pub open spec fn numbered_messages(msgs: Seq<Seq<char>>) -> Seq<char>
    decreases msgs.len(),
{
    if msgs.len() == 0 {
        Seq::empty()
    } else {
        let rest = numbered_messages(msgs.drop_last());
        let sep = if msgs.len() > 1 {
            seq![',']
        } else {
            Seq::empty()
        };
        rest + sep + decimal_digits(msgs.len()) + seq![':'] + msgs.last()
    }
}

/// The messages of a roast target gathered so far, while reading back through a channel.
pub struct RoastHistory {
    pub text: String,
    pub count: usize,
    pub messages: Ghost<Seq<Seq<char>>>,
}

impl RoastHistory {
    /// The text holds the gathered messages, numbered, and there are at most enough of them.
    pub open spec fn wf(&self) -> bool {
        &&& self.text@ == numbered_messages(self.messages@)
        &&& self.count == self.messages@.len()
        &&& self.count <= ROAST_MESSAGES
    }

    /// Nothing gathered yet.
    pub fn new() -> (h: RoastHistory)
        ensures
            h.wf(),
            h.messages@ == Seq::<Seq<char>>::empty(),
    {
        RoastHistory { text: String::new(), count: 0, messages: Ghost(Seq::empty()) }
    }

    /// Whether enough messages are gathered, so that reading stops.
    pub fn is_full(&self) -> (b: bool)
        requires
            self.wf(),
        ensures
            b == (self.messages@.len() >= ROAST_MESSAGES),
    {
        self.count >= ROAST_MESSAGES
    }

    /// Takes in one more message of the target.
    pub fn add(&mut self, content: &str)
        requires
            old(self).wf(),
            old(self).messages@.len() < ROAST_MESSAGES,
        ensures
            final(self).wf(),
            final(self).messages@ == old(self).messages@.push(content@),
    {
        let index = self.count + 1;
        if self.count > 0 {
            push_char(&mut self.text, ',');
        }
        push_decimal(&mut self.text, index as u64);
        push_char(&mut self.text, ':');
        push_str(&mut self.text, content);
        let ghost msgs = self.messages@.push(content@);
        proof {
            assert(msgs.drop_last() =~= self.messages@);
            let sep = if msgs.len() > 1 {
                seq![',']
            } else {
                Seq::<char>::empty()
            };
            assert(self.text@ =~= numbered_messages(self.messages@) + sep + decimal_digits(
                msgs.len(),
            ) + seq![':'] + content@);
        }
        self.messages = Ghost(msgs);
        self.count = index;
    }
}

/// The roles of a member as the roast profile lists them: their names with `, ` between,
/// or `no roles` when they are not known.
pub fn roles_text(roles: Option<&Vec<String>>) -> (s: String)
    ensures
        s@ == match roles {
            Some(r) => joined(text_views(r@), ", "@),
            None => "no roles"@,
        },
{
    match roles {
        Some(r) => {
            let mut s = String::new();
            let mut i: usize = 0;
            while i < r.len()
                invariant
                    i <= r@.len(),
                    s@ == joined(text_views(r@).take(i as int), ", "@),
                decreases r.len() - i,
            {
                let ghost before = text_views(r@).take(i as int);
                assert(text_views(r@).take(i + 1).drop_last() =~= before);
                assert(text_views(r@).take(i + 1).last() == r@[i as int]@);
                if i > 0 {
                    push_str(&mut s, ", ");
                }
                push_str(&mut s, r[i].as_str());
                proof {
                    if i == 0 {
                        assert(s@ =~= text_views(r@).take(1)[0]);
                    }
                }
                i += 1;
            }
            assert(text_views(r@).take(r@.len() as int) =~= text_views(r@));
            s
        },
        None => String::from_str("no roles"),
    }
}

/// What the roast command tells the chatbot of its target.
pub struct RoastProfile {
    pub name: String,
    pub avatar: String,
    pub banner: String,
    pub roles: String,
    pub created: String,
    pub joined: String,
    pub message_count: i32,
    pub messages: String,
}

/// The profile of a roast target as one line:
/// `name:..,avatar:..,banner:..,roles:..,acc_create:..,joined_svr:..,msg_count:..,last_msgs:..`.
pub open spec fn roast_line(p: RoastProfile) -> Seq<char> {
    "name:"@ + p.name@ + ",avatar:"@ + p.avatar@ + ",banner:"@ + p.banner@ + ",roles:"@ + p.roles@
        + ",acc_create:"@ + p.created@ + ",joined_svr:"@ + p.joined@ + ",msg_count:"@
        + signed_decimal(p.message_count as int) + ",last_msgs:"@ + p.messages@
}

/// The profile of a roast target as one line.
pub fn roast_description(p: &RoastProfile) -> (s: String)
    ensures
        s@ == roast_line(*p),
{
    let mut s = String::new();
    push_str(&mut s, "name:");
    push_str(&mut s, p.name.as_str());
    push_str(&mut s, ",avatar:");
    push_str(&mut s, p.avatar.as_str());
    push_str(&mut s, ",banner:");
    push_str(&mut s, p.banner.as_str());
    push_str(&mut s, ",roles:");
    push_str(&mut s, p.roles.as_str());
    push_str(&mut s, ",acc_create:");
    push_str(&mut s, p.created.as_str());
    push_str(&mut s, ",joined_svr:");
    push_str(&mut s, p.joined.as_str());
    push_str(&mut s, ",msg_count:");
    let count = signed_decimal_string(p.message_count as i64);
    push_str(&mut s, count.as_str());
    push_str(&mut s, ",last_msgs:");
    push_str(&mut s, p.messages.as_str());
    assert(s@ =~= roast_line(*p));
    s
}

/// The title of a roast: `Roasting {name}`.
pub fn roast_title(name: &str) -> (s: String)
    ensures
        s@ == "Roasting "@ + name@,
{
    let mut s = String::new();
    push_str(&mut s, "Roasting ");
    push_str(&mut s, name);
    assert(s@ =~= "Roasting "@ + name@);
    s
}

/// The title of a birthday wish: `HAPPY BIRTHDAY {name}!`.
pub fn birthday_title(name: &str) -> (s: String)
    ensures
        s@ == "HAPPY BIRTHDAY "@ + name@ + seq!['!'],
{
    let mut s = String::new();
    push_str(&mut s, "HAPPY BIRTHDAY ");
    push_str(&mut s, name);
    push_str(&mut s, "!");
    proof {
        reveal_strlit("!");
    }
    assert(s@ =~= "HAPPY BIRTHDAY "@ + name@ + seq!['!']);
    s
}

} // verus!
