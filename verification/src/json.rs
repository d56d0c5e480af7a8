//! JSON objects as text, the way they go over the wire.

use vstd::prelude::*;
use vstd::string::*;

use crate::text;
use crate::text::decimal_u128;

verus! {

/// What a character looks like inside a JSON string.
pub open spec fn escape(c: char) -> Seq<char> {
    if c == '"' {
        seq!['\\', '"']
    } else if c == '\\' {
        seq!['\\', '\\']
    } else if c == '\u{8}' {
        seq!['\\', 'b']
    } else if c == '\u{9}' {
        seq!['\\', 't']
    } else if c == '\u{a}' {
        seq!['\\', 'n']
    } else if c == '\u{c}' {
        seq!['\\', 'f']
    } else if c == '\u{d}' {
        seq!['\\', 'r']
    } else if c <= '\u{1f}' {
        seq![
            '\\',
            'u',
            '0',
            '0',
            text::digit((c as u32 / 16) as nat),
            text::digit((c as u32 % 16) as nat),
        ]
    } else {
        seq![c]
    }
}

/// What a text looks like inside a JSON string.
pub open spec fn escaped(s: Seq<char>) -> Seq<char>
    decreases s.len(),
{
    if s.len() == 0 {
        Seq::empty()
    } else {
        escaped(s.drop_last()) + escape(s.last())
    }
}

/// A text as a JSON string.
pub open spec fn quoted(s: Seq<char>) -> Seq<char> {
    seq!['"'] + escaped(s) + seq!['"']
}

/// A number in decimal, with a minus sign where it is negative.
pub open spec fn number_text(n: int) -> Seq<char> {
    if n < 0 {
        seq!['-'] + text::decimal((-n) as nat)
    } else {
        text::decimal(n as nat)
    }
}

/// The values that a member of an object can have.
#[verifier::ext_equal]
pub enum Value {
    Text(Seq<char>),
    Number(int),
    Flag(bool),
}

/// A value as JSON.
pub open spec fn value_text(value: Value) -> Seq<char> {
    match value {
        Value::Text(s) => quoted(s),
        Value::Number(n) => number_text(n),
        Value::Flag(b) => if b {
            "true"@
        } else {
            "false"@
        },
    }
}

/// A member of an object: its name and its value.
pub type Member = (Seq<char>, Value);

/// A member as JSON. Names are written as they are: none of ours needs escaping.
pub open spec fn member_text(member: Member) -> Seq<char> {
    seq!['"'] + member.0 + seq!['"', ':'] + value_text(member.1)
}

/// Members with commas between them.
pub open spec fn members_text(members: Seq<Member>) -> Seq<char>
    decreases members.len(),
{
    if members.len() == 0 {
        Seq::empty()
    } else if members.len() == 1 {
        member_text(members[0])
    } else {
        members_text(members.drop_last()) + seq![','] + member_text(members.last())
    }
}

/// An object as JSON.
pub open spec fn object_text(members: Seq<Member>) -> Seq<char> {
    seq!['{'] + members_text(members) + seq!['}']
}

/// `serde_json::to_string` of a string: the text in quotation marks, with the quotation mark, the
/// backslash and the control characters escaped and everything else as it is. Nothing can fail
/// in there: the text is written to memory.
#[verifier::external_body]
fn json_string(s: &str) -> (json: String)
    ensures
        json@ == quoted(s@),
{
    match serde_json::to_string(s) {
        Ok(json) => json,
        Err(_) => String::new(),
    }
}

/// A number as JSON.
fn json_number(n: i128) -> (json: String)
    requires
        n > i128::MIN,
    ensures
        json@ == number_text(n as int),
{
    if n < 0 {
        let mut json = "-".to_owned();
        json.append(decimal_u128((-n) as u128).as_str());
        proof {
            reveal_strlit("-");
            assert("-"@ =~= seq!['-']);
        }
        json
    } else {
        decimal_u128(n as u128)
    }
}

/// An object in the making: what has been written of it so far.
pub(crate) struct ObjectWriter {
    pub text: String,
    pub members: Ghost<Seq<Member>>,
}

impl ObjectWriter {
    /// Whether the text is that of the members so far, up to the closing brace.
    pub(crate) open spec fn wf(&self) -> bool {
        self.text@ == seq!['{'] + members_text(self.members@)
    }

    /// An object without members.
    pub(crate) fn new() -> (object: Self)
        ensures
            object.wf(),
            object.members@ == Seq::<Member>::empty(),
    {
        proof {
            reveal_strlit("{");
            assert("{"@ =~= seq!['{'] + members_text(Seq::<Member>::empty()));
        }
        ObjectWriter { text: "{".to_owned(), members: Ghost(Seq::empty()) }
    }

    /// Adds a member whose value is already JSON.
    fn member(&mut self, name: &str, json: &str, value: Ghost<Value>)
        requires
            old(self).wf(),
            json@ == value_text(value@),
        ensures
            final(self).wf(),
            final(self).members@ == old(self).members@.push((name@, value@)),
    {
        let ghost before = self.members@;
        let ghost now = before.push((name@, value@));
        proof {
            reveal_strlit(",");
            reveal_strlit("\"");
            reveal_strlit("\":");
            reveal_strlit("{");
            if before.len() == 0 {
                assert(self.text@ =~= seq!['{']);
            } else {
                assert(self.text@.len() > 1) by {
                    lemma_members_are_not_nothing(before);
                }
            }
        }
        if self.text.as_str().unicode_len() > 1 {
            self.text.append(",");
        }
        self.text.append("\"");
        self.text.append(name);
        self.text.append("\":");
        self.text.append(json);
        self.members = Ghost(now);
        proof {
            assert(now.drop_last() =~= before);
            assert(self.text@ =~= seq!['{'] + members_text(now));
        }
    }

    /// Adds a text.
    pub(crate) fn text(&mut self, name: &str, value: &str)
        requires
            old(self).wf(),
        ensures
            final(self).wf(),
            final(self).members@ == old(self).members@.push((name@, Value::Text(value@))),
    {
        let json = json_string(value);
        self.member(name, json.as_str(), Ghost(Value::Text(value@)));
    }

    /// Adds a text if there is one.
    pub(crate) fn opt_text(&mut self, name: &str, value: &Option<String>)
        requires
            old(self).wf(),
        ensures
            final(self).wf(),
            final(self).members@ == old(self).members@ + optional(name@, text::opt_text(*value)),
    {
        match value {
            Some(value) => {
                let ghost before = self.members@;
                self.text(name, value.as_str());
                proof {
                    assert(self.members@ =~= before + optional(name@, Some(value@)));
                }
            },
            None => {
                proof {
                    assert(self.members@ =~= self.members@ + optional(name@, None));
                }
            },
        }
    }

    /// Adds a number.
    pub(crate) fn number(&mut self, name: &str, value: i128)
        requires
            old(self).wf(),
            value > i128::MIN,
        ensures
            final(self).wf(),
            final(self).members@ == old(self).members@.push((name@, Value::Number(value as int))),
    {
        let json = json_number(value);
        self.member(name, json.as_str(), Ghost(Value::Number(value as int)));
    }

    /// Adds a truth value.
    pub(crate) fn flag(&mut self, name: &str, value: bool)
        requires
            old(self).wf(),
        ensures
            final(self).wf(),
            final(self).members@ == old(self).members@.push((name@, Value::Flag(value))),
    {
        if value {
            self.member(name, "true", Ghost(Value::Flag(true)));
        } else {
            self.member(name, "false", Ghost(Value::Flag(false)));
        }
    }

    /// The object as JSON.
    pub(crate) fn finish(self) -> (json: String)
        requires
            self.wf(),
        ensures
            json@ == object_text(self.members@),
    {
        let mut json = self.text;
        json.append("}");
        proof {
            reveal_strlit("}");
            assert(json@ =~= object_text(self.members@));
        }
        json
    }
}

/// A member that is there only if its value is.
pub open spec fn optional(name: Seq<char>, value: Option<Seq<char>>) -> Seq<Member> {
    match value {
        Some(value) => seq![(name, Value::Text(value))],
        None => Seq::empty(),
    }
}

proof fn lemma_members_are_not_nothing(members: Seq<Member>)
    requires
        members.len() > 0,
    ensures
        members_text(members).len() > 0,
{
}

/// A text without anything to escape stands between its quotation marks as it is.
pub proof fn law_plain_text_is_not_escaped(s: Seq<char>)
    requires
        forall|i: int| 0 <= i < s.len() ==> #[trigger] s[i] >= ' ' && s[i] != '"' && s[i] != '\\',
    ensures
        quoted(s) == seq!['"'] + s + seq!['"'],
{
    lemma_plain(s);
}

proof fn lemma_plain(s: Seq<char>)
    requires
        forall|i: int| 0 <= i < s.len() ==> #[trigger] s[i] >= ' ' && s[i] != '"' && s[i] != '\\',
    ensures
        escaped(s) == s,
    decreases s.len(),
{
    if s.len() > 0 {
        assert forall|i: int| 0 <= i < s.drop_last().len() implies #[trigger] s.drop_last()[i] >= ' '
            && s.drop_last()[i] != '"' && s.drop_last()[i] != '\\' by {
            assert(s.drop_last()[i] == s[i]);
        }
        lemma_plain(s.drop_last());
        assert(s.last() == s[s.len() - 1]);
        assert(s.drop_last() + seq![s.last()] =~= s);
    } else {
        assert(escaped(s) =~= s);
    }
}

/// Values are written as JSON has them: a text between quotation marks, a number in decimal behind
/// a minus sign where it is negative, and a truth as a word.
pub proof fn law_values_are_written_as_json(s: Seq<char>, n: nat)
    ensures
        value_text(Value::Text(s)) == seq!['"'] + escaped(s) + seq!['"'],
        value_text(Value::Number(n as int)) == text::decimal(n),
        n > 0 ==> value_text(Value::Number(-(n as int))) == seq!['-'] + text::decimal(n),
        value_text(Value::Flag(true)) == "true"@,
        value_text(Value::Flag(false)) == "false"@,
{
}

/// Objects are written as JSON has them: name, colon and value of each member, in order, commas
/// between them, and braces around it all.
pub proof fn law_objects_are_written_as_json(members: Seq<Member>, name: Seq<char>, value: Value)
    ensures
        object_text(members) == seq!['{'] + members_text(members) + seq!['}'],
        members_text(seq![(name, value)]) == seq!['"'] + name + seq!['"', ':'] + value_text(value),
        members.len() > 0 ==> members_text(members.push((name, value))) == members_text(members)
            + seq![','] + members_text(seq![(name, value)]),
{
    let more = members.push((name, value));
    assert(more.drop_last() =~= members);
    assert(more.last() == (name, value));
}

} // verus!
