//! Styled-markup building for the popup: escaping user text, the age label,
//! the per-notification markup line and the overflow footer. Everything here
//! is a pure function of the notification fields and the clock value the
//! caller passes in.

use vstd::prelude::*;
use vstd::string::{StrSliceExecFns, StringExecFns};
use crate::notification::Notification;

verus! {

/// How one character is escaped for safe inclusion in styled markup.
pub open spec fn spec_escape_char(c: char) -> Seq<char> {
    if c == '&' {
        "&amp;"@
    } else if c == '<' {
        "&lt;"@
    } else if c == '>' {
        "&gt;"@
    } else if c == '"' {
        "&quot;"@
    } else if c == '\'' {
        "&#39;"@
    } else {
        seq![c]
    }
}

/// A sequence of characters with each reserved character escaped.
pub open spec fn spec_escape(s: Seq<char>) -> Seq<char>
    decreases s.len(),
{
    if s.len() == 0 {
        Seq::<char>::empty()
    } else {
        spec_escape_char(s[0]) + spec_escape(s.drop_first())
    }
}

/// Escaping distributes over concatenation.
pub proof fn lemma_escape_append(a: Seq<char>, b: Seq<char>)
    ensures
        spec_escape(a + b) == spec_escape(a) + spec_escape(b),
    decreases a.len(),
{
    if a.len() == 0 {
        assert(a + b =~= b);
        assert(spec_escape(a) + spec_escape(b) =~= spec_escape(b));
    } else {
        assert((a + b).drop_first() =~= a.drop_first() + b);
        lemma_escape_append(a.drop_first(), b);
        assert(spec_escape_char((a + b)[0]) + (spec_escape(a.drop_first()) + spec_escape(b))
            =~= (spec_escape_char(a[0]) + spec_escape(a.drop_first())) + spec_escape(b));
    }
}

/// Escaping a single character yields just its escaped form.
pub proof fn lemma_escape_single(c: char)
    ensures
        spec_escape(seq![c]) == spec_escape_char(c),
{
    let one = seq![c];
    assert(one.drop_first() =~= Seq::<char>::empty());
    assert(spec_escape(one) == spec_escape_char(c) + spec_escape(Seq::<char>::empty()));
    assert(spec_escape_char(c) + Seq::<char>::empty() =~= spec_escape_char(c));
}

/// Escapes text for safe inclusion in styled markup: ampersand, angle
/// brackets, double quote and apostrophe become character entities.
pub fn escape_markup(s: &str) -> (r: String)
    ensures
        r@ == spec_escape(s@),
{
    let n = s.unicode_len();
    let mut out = String::new();
    let mut i: usize = 0;
    while i < n
        invariant
            n == s@.len(),
            i <= n,
            out@ == spec_escape(s@.take(i as int)),
        decreases n - i,
    {
        let c = s.get_char(i);
        if c == '&' {
            out.append("&amp;");
        } else if c == '<' {
            out.append("&lt;");
        } else if c == '>' {
            out.append("&gt;");
        } else if c == '"' {
            out.append("&quot;");
        } else if c == '\'' {
            out.append("&#39;");
        } else {
            let piece = s.substring_char(i, i + 1);
            out.append(piece);
            proof {
                assert(s@.subrange(i as int, i + 1 as int) =~= seq![s@[i as int]]);
            }
        }
        proof {
            let head = s@.take(i as int);
            let one = seq![s@[i as int]];
            assert(s@.take(i + 1 as int) =~= head + one);
            lemma_escape_append(head, one);
            lemma_escape_single(s@[i as int]);
        }
        i = i + 1;
    }
    proof {
        assert(s@.take(n as int) =~= s@);
    }
    out
}

/// Law: escaped text holds none of the reserved characters `<`, `>`, `"`,
/// `'` in the raw form; only entities beginning with `&` remain.
pub proof fn lemma_escape_no_raw(s: Seq<char>)
    ensures
        forall|i: int|
            0 <= i < spec_escape(s).len() ==> spec_escape(s)[i] != '<' && spec_escape(s)[i] != '>'
                && spec_escape(s)[i] != '"' && spec_escape(s)[i] != '\'',
    decreases s.len(),
{
    reveal_strlit("&amp;");
    reveal_strlit("&lt;");
    reveal_strlit("&gt;");
    reveal_strlit("&quot;");
    reveal_strlit("&#39;");
    if s.len() > 0 {
        lemma_escape_no_raw(s.drop_first());
        assert forall|i: int|
            0 <= i < spec_escape(s).len() implies spec_escape(s)[i] != '<' && spec_escape(s)[i]
            != '>' && spec_escape(s)[i] != '"' && spec_escape(s)[i] != '\'' by {
            let head = spec_escape_char(s[0]);
            if i >= head.len() {
                assert(spec_escape(s)[i] == spec_escape(s.drop_first())[i - head.len()]);
            }
        }
    }
}

/// The decimal digit character for a value below ten.
pub open spec fn spec_digit(d: int) -> char {
    if d == 0 {
        '0'
    } else if d == 1 {
        '1'
    } else if d == 2 {
        '2'
    } else if d == 3 {
        '3'
    } else if d == 4 {
        '4'
    } else if d == 5 {
        '5'
    } else if d == 6 {
        '6'
    } else if d == 7 {
        '7'
    } else if d == 8 {
        '8'
    } else {
        '9'
    }
}

/// The decimal representation of a non-negative value.
pub open spec fn spec_dec(n: int) -> Seq<char>
    decreases n,
{
    if n < 10 {
        seq![spec_digit(n)]
    } else {
        spec_dec(n / 10) + seq![spec_digit(n % 10)]
    }
}

/// The decimal representation is one digit below ten, two digits below a
/// hundred, and at least three digits from a hundred up.
pub proof fn lemma_dec_len(n: int)
    requires
        n >= 0,
    ensures
        n < 10 ==> spec_dec(n).len() == 1,
        10 <= n < 100 ==> spec_dec(n).len() == 2,
        100 <= n ==> spec_dec(n).len() >= 3,
    decreases n,
{
    if n >= 10 {
        lemma_dec_len(n / 10);
    }
}

/// A sequence right-aligned to a width of three with spaces.
pub open spec fn spec_pad3(s: Seq<char>) -> Seq<char> {
    if s.len() >= 3 {
        s
    } else if s.len() == 2 {
        " "@ + s
    } else if s.len() == 1 {
        "  "@ + s
    } else {
        "   "@
    }
}

/// The age label of a notification: seconds below a minute, minutes below an
/// hour, hours beyond, the value right-aligned to three columns.
pub open spec fn spec_age_label(age: int) -> Seq<char> {
    if age < 60 {
        spec_pad3(spec_dec(age)) + "s"@
    } else if age < 3600 {
        spec_pad3(spec_dec(age / 60)) + "m"@
    } else {
        spec_pad3(spec_dec(age / 3600)) + "h"@
    }
}

/// The decimal digit below ten, as a string slice.
fn digit_str(d: u64) -> (r: &'static str)
    requires
        d < 10,
    ensures
        r@ == seq![spec_digit(d as int)],
{
    proof {
        reveal_strlit("0");
        reveal_strlit("1");
        reveal_strlit("2");
        reveal_strlit("3");
        reveal_strlit("4");
        reveal_strlit("5");
        reveal_strlit("6");
        reveal_strlit("7");
        reveal_strlit("8");
        reveal_strlit("9");
    }
    match d {
        0 => "0",
        1 => "1",
        2 => "2",
        3 => "3",
        4 => "4",
        5 => "5",
        6 => "6",
        7 => "7",
        8 => "8",
        _ => "9",
    }
}

/// Appends the decimal representation of `n`.
fn push_dec(out: &mut String, n: u64)
    ensures
        final(out)@ == old(out)@ + spec_dec(n as int),
    decreases n,
{
    if n >= 10 {
        push_dec(out, n / 10);
        out.append(digit_str(n % 10));
        proof {
            assert(old(out)@ + spec_dec(n as int / 10) + seq![spec_digit(n as int % 10)]
                =~= old(out)@ + spec_dec(n as int));
        }
    } else {
        out.append(digit_str(n));
        proof {
            assert(old(out)@ + seq![spec_digit(n as int)] =~= old(out)@ + spec_dec(n as int));
        }
    }
}

/// Appends the age label for an age in seconds.
fn push_age_label(out: &mut String, age: u64)
    ensures
        final(out)@ == old(out)@ + spec_age_label(age as int),
{
    let v: u64 = if age < 60 {
        age
    } else if age < 3600 {
        age / 60
    } else {
        age / 3600
    };
    proof {
        lemma_dec_len(v as int);
    }
    if v < 10 {
        out.append("  ");
    } else if v < 100 {
        out.append(" ");
    }
    push_dec(out, v);
    if age < 60 {
        out.append("s");
    } else if age < 3600 {
        out.append("m");
    } else {
        out.append("h");
    }
    proof {
        if v < 10 {
            assert(old(out)@ + "  "@ + spec_dec(v as int) =~= old(out)@ + spec_pad3(
                spec_dec(v as int),
            ));
        } else if v < 100 {
            assert(old(out)@ + " "@ + spec_dec(v as int) =~= old(out)@ + spec_pad3(
                spec_dec(v as int),
            ));
        } else {
            assert(old(out)@ + spec_dec(v as int) =~= old(out)@ + spec_pad3(spec_dec(v as int)));
        }
        assert(final(out)@ =~= old(out)@ + spec_age_label(age as int));
    }
}

/// A notification's age at the given clock value, saturating at zero.
pub open spec fn spec_age(now: int, timestamp: int) -> int {
    if now >= timestamp {
        now - timestamp
    } else {
        0
    }
}

/// The full markup line of one notification: the muted age label, the app
/// name, the bold summary, and the indented body on its own line unless the
/// body is empty. All user text is escaped.
pub open spec fn spec_markup(n: Notification, now: int) -> Seq<char> {
    "<tt><span foreground=\"#888888\">"@ + spec_age_label(spec_age(now, n.timestamp as int))
        + "</span></tt> "@ + spec_escape(n.app_name@) + " <b>"@ + spec_escape(n.summary@) + "</b>"@
        + if n.body@.len() == 0 {
        Seq::<char>::empty()
    } else {
        "\n  "@ + spec_escape(n.body@)
    }
}

/// Builds the markup line for one notification at the given clock value
/// (seconds since the epoch).
pub fn notification_markup(n: &Notification, now: u64) -> (r: String)
    ensures
        r@ == spec_markup(*n, now as int),
{
    let age: u64 = if now >= n.timestamp {
        now - n.timestamp
    } else {
        0
    };
    let mut out = String::new();
    out.append("<tt><span foreground=\"#888888\">");
    push_age_label(&mut out, age);
    out.append("</span></tt> ");
    let app = escape_markup(n.app_name.as_str());
    out.append(app.as_str());
    out.append(" <b>");
    let summary = escape_markup(n.summary.as_str());
    out.append(summary.as_str());
    out.append("</b>");
    if n.body.as_str().unicode_len() != 0 {
        out.append("\n  ");
        let body = escape_markup(n.body.as_str());
        out.append(body.as_str());
    }
    proof {
        assert(out@ =~= spec_markup(*n, now as int));
    }
    out
}

/// The overflow footer markup: how many more unread notifications exist than
/// are displayed.
pub open spec fn spec_footer(overflow: int) -> Seq<char> {
    "<span foreground=\"#888888\"><i>... and "@ + spec_dec(overflow) + " more</i></span>"@
}

/// Builds the overflow footer markup.
pub fn footer_markup(overflow: usize) -> (r: String)
    ensures
        r@ == spec_footer(overflow as int),
{
    let mut out = String::new();
    out.append("<span foreground=\"#888888\"><i>... and ");
    push_dec(&mut out, overflow as u64);
    out.append(" more</i></span>");
    proof {
        assert(out@ =~= spec_footer(overflow as int));
    }
    out
}

} // verus!
