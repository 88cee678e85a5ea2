//! Rendering of listings: the JSON form with an exact character-level
//! specification, and the colored table, whose text is assembled from
//! specified pieces but whose color codes come from an outside crate.

use vstd::prelude::*;
use vstd::string::{StrSliceExecFns, StringExecFns};

use crate::todo::{priority_rank, rank_spec, Todo};

verus! {

/// Relies on String::push: appends the given character to the string.
#[verifier::external_body]
pub(crate) fn push_char(s: &mut String, c: char)
    ensures
        final(s)@ == old(s)@.push(c),
{
    s.push(c)
}

/// What str::to_uppercase returns; the mapping depends on the characters
/// alone.
pub uninterp spec fn upper_of(s: Seq<char>) -> Seq<char>;

/// Relies on str::to_uppercase: the uppercase mapping of the characters,
/// independent of any locale or environment.
#[verifier::external_body]
pub(crate) fn to_upper(s: &str) -> (r: String)
    ensures
        r@ == upper_of(s@),
{
    s.to_uppercase()
}

/// No escape character anywhere in the text.
pub open spec fn no_esc(s: Seq<char>) -> bool {
    forall|i: int| 0 <= i < s.len() ==> s[i] != '\u{1b}'
}

/// What a coloring call hands back, as colored's own rendering shows: the
/// text unchanged (coloring disabled), or the text between the color's
/// escape code and the reset code.
pub open spec fn painted(out: Seq<char>, body: Seq<char>, code: Seq<char>) -> bool {
    out == body || out == code + body + "\u{1b}[0m"@
}

/// The red foreground escape code.
pub open spec fn red_code() -> Seq<char> {
    "\u{1b}[31m"@
}

/// The yellow foreground escape code.
pub open spec fn yellow_code() -> Seq<char> {
    "\u{1b}[33m"@
}

/// The green foreground escape code.
pub open spec fn green_code() -> Seq<char> {
    "\u{1b}[32m"@
}

/// The white foreground escape code.
pub open spec fn white_code() -> Seq<char> {
    "\u{1b}[37m"@
}

/// The bright-black foreground escape code, used to de-emphasize completed
/// rows.
pub open spec fn dim_code() -> Seq<char> {
    "\u{1b}[90m"@
}

/// Relies on colored's Colorize::red and ColoredString's Display: with
/// coloring off the text passes through unchanged; with it on, it stands
/// between the red code and the reset code. Text holding an escape
/// character is left unconstrained (inner reset sequences are rewritten).
#[verifier::external_body]
pub(crate) fn paint_red(s: &str) -> (r: String)
    ensures
        no_esc(s@) ==> painted(r@, s@, red_code()),
{
    colored::Colorize::red(s).to_string()
}

/// Relies on colored's Colorize::yellow; as with `paint_red`.
#[verifier::external_body]
pub(crate) fn paint_yellow(s: &str) -> (r: String)
    ensures
        no_esc(s@) ==> painted(r@, s@, yellow_code()),
{
    colored::Colorize::yellow(s).to_string()
}

/// Relies on colored's Colorize::green; as with `paint_red`.
#[verifier::external_body]
pub(crate) fn paint_green(s: &str) -> (r: String)
    ensures
        no_esc(s@) ==> painted(r@, s@, green_code()),
{
    colored::Colorize::green(s).to_string()
}

/// Relies on colored's Colorize::white; as with `paint_red`.
#[verifier::external_body]
pub(crate) fn paint_white(s: &str) -> (r: String)
    ensures
        no_esc(s@) ==> painted(r@, s@, white_code()),
{
    colored::Colorize::white(s).to_string()
}

/// Relies on colored's Colorize::bright_black; as with `paint_red`.
#[verifier::external_body]
pub(crate) fn paint_dim(s: &str) -> (r: String)
    ensures
        no_esc(s@) ==> painted(r@, s@, dim_code()),
{
    colored::Colorize::bright_black(s).to_string()
}

/// The decimal digit characters.
pub open spec fn digit_char(d: int) -> char {
    if d == 0 {
        '0'
    } else if d == 1 {
        '1'
    } else if d == 2 {
        '2'
    } else if d == 3 {
        '3'
    } else if d == 4 {
        '4'
    } else if d == 5 {
        '5'
    } else if d == 6 {
        '6'
    } else if d == 7 {
        '7'
    } else if d == 8 {
        '8'
    } else {
        '9'
    }
}

/// The decimal digits of a number, most significant first.
pub open spec fn dec_digits(n: nat) -> Seq<char>
    decreases n,
{
    if n < 10 {
        seq![digit_char(n as int)]
    } else {
        dec_digits(n / 10).push(digit_char((n % 10) as int))
    }
}

fn digit_char_exec(d: u64) -> (r: char)
    requires
        d < 10,
    ensures
        r == digit_char(d as int),
{
    if d == 0 {
        '0'
    } else if d == 1 {
        '1'
    } else if d == 2 {
        '2'
    } else if d == 3 {
        '3'
    } else if d == 4 {
        '4'
    } else if d == 5 {
        '5'
    } else if d == 6 {
        '6'
    } else if d == 7 {
        '7'
    } else if d == 8 {
        '8'
    } else {
        '9'
    }
}

/// The decimal rendering of a number.
pub fn u64_to_string(n: u64) -> (r: String)
    ensures
        r@ == dec_digits(n as nat),
    decreases n,
{
    if n < 10 {
        let mut s = String::new();
        push_char(&mut s, digit_char_exec(n));
        proof {
            assert(s@ =~= seq![digit_char(n as int)]);
        }
        s
    } else {
        let mut s = u64_to_string(n / 10);
        push_char(&mut s, digit_char_exec(n % 10));
        s
    }
}

/// The decimal rendering of a non-negative identifier or flag.
pub fn i64_to_string(n: i64) -> (r: String)
    requires
        n >= 0,
    ensures
        r@ == dec_digits(n as nat),
{
    u64_to_string(n as u64)
}

/// The decimal rendering of a count.
pub fn usize_to_string(n: usize) -> (r: String)
    ensures
        r@ == dec_digits(n as nat),
{
    u64_to_string(n as u64)
}

/// The hexadecimal digit characters, lower case.
pub open spec fn hex_char(d: int) -> char {
    if d < 10 {
        digit_char(d)
    } else if d == 10 {
        'a'
    } else if d == 11 {
        'b'
    } else if d == 12 {
        'c'
    } else if d == 13 {
        'd'
    } else if d == 14 {
        'e'
    } else {
        'f'
    }
}

fn hex_char_exec(d: u32) -> (r: char)
    requires
        d < 16,
    ensures
        r == hex_char(d as int),
{
    if d < 10 {
        digit_char_exec(d as u64)
    } else if d == 10 {
        'a'
    } else if d == 11 {
        'b'
    } else if d == 12 {
        'c'
    } else if d == 13 {
        'd'
    } else if d == 14 {
        'e'
    } else {
        'f'
    }
}

/// The JSON escape of one character: quotes and backslashes get a backslash,
/// control characters a `\u00..` escape, everything else stands as itself.
pub open spec fn esc_char(c: char) -> Seq<char> {
    if c == '"' {
        seq!['\\', '"']
    } else if c == '\\' {
        seq!['\\', '\\']
    } else if (c as int) < 32 {
        seq!['\\', 'u', '0', '0', hex_char(c as int / 16), hex_char(c as int % 16)]
    } else {
        seq![c]
    }
}

/// The JSON escape of a string: each character escaped in order.
pub open spec fn esc_str(s: Seq<char>) -> Seq<char>
    decreases s.len(),
{
    if s.len() == 0 {
        Seq::empty()
    } else {
        esc_str(s.drop_last()) + esc_char(s.last())
    }
}

/// Escape a string for inclusion in a JSON string literal.
pub fn json_escape(s: &str) -> (r: String)
    ensures
        r@ == esc_str(s@),
{
    let n = s.unicode_len();
    let mut out = String::new();
    let mut i: usize = 0;
    while i < n
        invariant
            n == s@.len(),
            0 <= i <= n,
            out@ == esc_str(s@.take(i as int)),
        decreases n - i,
    {
        let c = s.get_char(i);
        if c == '"' {
            out.append("\\\"");
            proof {
                reveal_strlit("\\\"");
                assert(out@ =~= esc_str(s@.take(i as int)) + esc_char(s@[i as int]));
            }
        } else if c == '\\' {
            out.append("\\\\");
            proof {
                reveal_strlit("\\\\");
                assert(out@ =~= esc_str(s@.take(i as int)) + esc_char(s@[i as int]));
            }
        } else if (c as u32) < 32 {
            out.append("\\u00");
            push_char(&mut out, hex_char_exec((c as u32) / 16));
            push_char(&mut out, hex_char_exec((c as u32) % 16));
            proof {
                reveal_strlit("\\u00");
                assert(out@ =~= esc_str(s@.take(i as int)) + esc_char(s@[i as int]));
            }
        } else {
            push_char(&mut out, c);
            proof {
                assert(out@ =~= esc_str(s@.take(i as int)) + esc_char(s@[i as int]));
            }
        }
        proof {
            assert(s@.take(i as int + 1).drop_last() =~= s@.take(i as int));
            assert(s@.take(i as int + 1).last() == s@[i as int]);
            assert(out@ == esc_str(s@.take(i as int + 1)));
        }
        i += 1;
    }
    proof {
        assert(s@.take(n as int) =~= s@);
    }
    out
}

/// The JSON form of the optional completion timestamp: an explicit null when
/// absent, a string literal when present.
pub open spec fn json_opt_str(o: Option<String>) -> Seq<char> {
    match o {
        Option::None => "null"@,
        Option::Some(ts) => "\""@ + esc_str(ts@) + "\""@,
    }
}

fn json_opt(o: &Option<String>) -> (r: String)
    ensures
        r@ == json_opt_str(*o),
{
    match o {
        None => String::from_str("null"),
        Some(ts) => {
            let mut s = String::from_str("\"");
            s.append(json_escape(ts.as_str()).as_str());
            s.append("\"");
            s
        },
    }
}

/// The JSON record of one todo: all six fields, in a fixed order, with
/// `completed` an integer flag and `completed_at` an explicit null when
/// absent.
pub open spec fn json_of_todo(t: Todo) -> Seq<char> {
    "{\"id\":"@ + dec_digits(t.id as nat) + ",\"text\":\""@ + esc_str(t.text@)
        + "\",\"priority\":\""@ + esc_str(t.priority@) + "\",\"completed\":"@ + dec_digits(
        t.completed as nat,
    ) + ",\"created_at\":\""@ + esc_str(t.created_at@) + "\",\"completed_at\":"@ + json_opt_str(
        t.completed_at,
    ) + "}"@
}

/// Render one todo as a JSON record.
pub fn todo_json(t: &Todo) -> (r: String)
    requires
        t.id >= 0,
        t.completed >= 0,
    ensures
        r@ == json_of_todo(*t),
{
    let mut s = String::from_str("{\"id\":");
    s.append(i64_to_string(t.id).as_str());
    s.append(",\"text\":\"");
    s.append(json_escape(t.text.as_str()).as_str());
    s.append("\",\"priority\":\"");
    s.append(json_escape(t.priority.as_str()).as_str());
    s.append("\",\"completed\":");
    s.append(i64_to_string(t.completed).as_str());
    s.append(",\"created_at\":\"");
    s.append(json_escape(t.created_at.as_str()).as_str());
    s.append("\",\"completed_at\":");
    s.append(json_opt(&t.completed_at).as_str());
    s.append("}");
    s
}

/// The comma-separated JSON records of a non-empty sequence of todos.
pub open spec fn json_items(s: Seq<Todo>) -> Seq<char>
    recommends
        s.len() > 0,
    decreases s.len(),
{
    if s.len() <= 1 {
        json_of_todo(s[0])
    } else {
        json_items(s.drop_last()) + ","@ + json_of_todo(s.last())
    }
}

/// The JSON array of a sequence of todos.
pub open spec fn json_of_rows(s: Seq<Todo>) -> Seq<char> {
    if s.len() == 0 {
        "[]"@
    } else {
        "["@ + json_items(s) + "]"@
    }
}

/// Render a listing as a JSON array of records.
pub fn render_json(todos: &Vec<Todo>) -> (r: String)
    requires
        forall|i: int|
            0 <= i < todos@.len() ==> (#[trigger] todos@[i]).id >= 0 && todos@[i].completed >= 0,
    ensures
        r@ == json_of_rows(todos@),
{
    let n = todos.len();
    if n == 0 {
        return String::from_str("[]");
    }
    let mut items = todo_json(&todos[0]);
    proof {
        assert(todos@.take(1) =~= seq![todos@[0]]);
        assert(items@ == json_items(todos@.take(1)));
    }
    let mut i: usize = 1;
    while i < n
        invariant
            n == todos@.len(),
            1 <= i <= n,
            forall|k: int|
                0 <= k < todos@.len() ==> (#[trigger] todos@[k]).id >= 0 && todos@[k].completed
                    >= 0,
            items@ == json_items(todos@.take(i as int)),
        decreases n - i,
    {
        items.append(",");
        items.append(todo_json(&todos[i]).as_str());
        proof {
            assert(todos@.take(i as int + 1).drop_last() =~= todos@.take(i as int));
            assert(todos@.take(i as int + 1).last() == todos@[i as int]);
            assert(items@ == json_items(todos@.take(i as int + 1)));
        }
        i += 1;
    }
    proof {
        assert(todos@.take(n as int) =~= todos@);
    }
    let mut out = String::from_str("[");
    out.append(items.as_str());
    out.append("]");
    out
}

/// A run of the same character, used for the table's separator line.
pub fn repeat_char(c: char, n: usize) -> (r: String)
    ensures
        r@.len() == n,
        forall|k: int| 0 <= k < n ==> r@[k] == c,
{
    let mut out = String::new();
    let mut i: usize = 0;
    while i < n
        invariant
            0 <= i <= n,
            out@.len() == i,
            forall|k: int| 0 <= k < i ==> out@[k] == c,
        decreases n - i,
    {
        push_char(&mut out, c);
        i += 1;
    }
    out
}

/// The given text padded on the left with spaces up to the given width; text
/// already that wide stands as it is.
pub open spec fn pad_left_spec(s: Seq<char>, w: nat) -> Seq<char> {
    if s.len() >= w {
        s
    } else {
        Seq::new((w - s.len()) as nat, |i: int| ' ') + s
    }
}

/// Right-align text in a field of the given width.
pub fn pad_left(s: &str, w: usize) -> (r: String)
    ensures
        r@ == pad_left_spec(s@, w as nat),
{
    let n = s.unicode_len();
    if n >= w {
        s.to_owned()
    } else {
        let mut out = String::new();
        let mut i: usize = 0;
        while i < w - n
            invariant
                n == s@.len(),
                n < w,
                0 <= i <= w - n,
                out@.len() == i,
                forall|k: int| 0 <= k < i ==> out@[k] == ' ',
            decreases w - n - i,
        {
            push_char(&mut out, ' ');
            i += 1;
        }
        out.append(s);
        proof {
            assert(out@ =~= pad_left_spec(s@, w as nat));
        }
        out
    }
}

/// The 80-character separator line of the table.
pub open spec fn table_sep() -> Seq<char> {
    Seq::new(80, |i: int| '\u{2500}')
}

/// The table's opening: a blank line, the title, and a separator line.
pub open spec fn table_header() -> Seq<char> {
    "\nTodos:\n"@ + table_sep() + "\n"@
}

/// Rows whose completion flag is exactly 1.
pub open spec fn count_completed(rows: Seq<Todo>) -> nat
    decreases rows.len(),
{
    if rows.len() == 0 {
        0
    } else {
        count_completed(rows.drop_last()) + if rows.last().completed == 1 {
            1nat
        } else {
            0nat
        }
    }
}

/// Rows whose completion flag is exactly 0.
pub open spec fn count_pending(rows: Seq<Todo>) -> nat
    decreases rows.len(),
{
    if rows.len() == 0 {
        0
    } else {
        count_pending(rows.drop_last()) + if rows.last().completed == 0 {
            1nat
        } else {
            0nat
        }
    }
}

/// The table's closing separator and the summary line with the exact
/// total, pending and completed counts.
pub open spec fn table_footer(rows: Seq<Todo>) -> Seq<char> {
    table_sep() + "\n"@ + "Total: "@ + dec_digits(rows.len()) + " ("@ + dec_digits(
        count_pending(rows),
    ) + " pending, "@ + dec_digits(count_completed(rows)) + " completed)\n"@
}

/// One body line: the completion glyph, the id right-aligned to three
/// places, the shown text, and the priority tag as rendered.
pub open spec fn table_line(t: Todo, shown: Seq<char>, tag: Seq<char>) -> Seq<char> {
    (if t.completed == 1 {
        "\u{2713} "@
    } else {
        "\u{25cb} "@
    }) + pad_left_spec(dec_digits(t.id as nat), 3) + " "@ + shown + " "@ + tag + "\n"@
}

/// The table's body: one line per row, in listing order.
pub open spec fn table_body(rows: Seq<Todo>, shown: Seq<Seq<char>>, tags: Seq<Seq<char>>) -> Seq<
    char,
>
    decreases rows.len(),
{
    if rows.len() == 0 {
        Seq::empty()
    } else {
        table_body(rows.drop_last(), shown.drop_last(), tags.drop_last()) + table_line(
            rows.last(),
            shown.last(),
            tags.last(),
        )
    }
}

/// The text handed to the coloring call for a row's tag: the priority
/// upper-cased, in brackets.
pub open spec fn tag_text(p: Seq<char>) -> Seq<char> {
    "["@ + upper_of(p) + "]"@
}

/// The escape code of a priority's color class: red for high, yellow for
/// medium, green for low, white otherwise.
pub open spec fn priority_code(p: Seq<char>) -> Seq<char> {
    if rank_spec(p) == 1 {
        red_code()
    } else if rank_spec(p) == 2 {
        yellow_code()
    } else if rank_spec(p) == 3 {
        green_code()
    } else {
        white_code()
    }
}

/// The whole table, for given shown texts and rendered tags.
pub open spec fn table_text(rows: Seq<Todo>, shown: Seq<Seq<char>>, tags: Seq<Seq<char>>) -> Seq<
    char,
> {
    table_header() + table_body(rows, shown, tags) + table_footer(rows)
}

/// How a rendered table relates to its rows. The skeleton is fixed: the
/// header, one line per row in order with its glyph and padded id, and the
/// summary with the true counts. The shown text of a pending row is the
/// row's own text. A completed row's text and every tag come back from a
/// coloring call, so they are pinned as far as that rendering goes: for
/// escape-free inputs, the text handed in (the row's text; the bracketed
/// upper-cased priority) either passes through unchanged or stands between
/// its class's color code and the reset code.
pub open spec fn table_rendering(
    rows: Seq<Todo>,
    shown: Seq<Seq<char>>,
    tags: Seq<Seq<char>>,
    out: Seq<char>,
) -> bool {
    &&& shown.len() == rows.len()
    &&& tags.len() == rows.len()
    &&& forall|i: int|
        0 <= i < rows.len() && rows[i].completed != 1 ==> #[trigger] shown[i] == rows[i].text@
    &&& forall|i: int|
        0 <= i < rows.len() && rows[i].completed == 1 && no_esc(rows[i].text@) ==> painted(
            #[trigger] shown[i],
            rows[i].text@,
            dim_code(),
        )
    &&& forall|i: int|
        0 <= i < rows.len() && no_esc(upper_of(rows[i].priority@)) ==> painted(
            #[trigger] tags[i],
            tag_text(rows[i].priority@),
            priority_code(rows[i].priority@),
        )
    &&& out == table_text(rows, shown, tags)
}

/// Bracketing an escape-free text leaves it escape-free.
proof fn lemma_no_esc_bracketed(m: Seq<char>)
    requires
        no_esc(m),
    ensures
        no_esc("["@ + m + "]"@),
{
    reveal_strlit("[");
    reveal_strlit("]");
    let s = "["@ + m + "]"@;
    assert forall|idx: int| 0 <= idx < s.len() implies s[idx] != '\u{1b}' by {
        if idx < 1 {
            assert(s[idx] == '[');
        } else if idx < 1 + m.len() {
            assert(s[idx] == m[idx - 1]);
        } else {
            assert(s[idx] == ']');
        }
    }
}

/// Render a listing as the table the terminal shows: a header, one line per
/// todo (completion glyph, right-aligned id, the text de-emphasized when
/// completed, and the priority tag colored by its class), and a summary
/// line with total, pending and completed counts. Everything but the
/// colored segments is pinned exactly; the colored segments are pinned as
/// far as the coloring crate's rendering goes (see `table_rendering`).
pub fn render_table(todos: &Vec<Todo>) -> (r: String)
    requires
        forall|i: int| 0 <= i < todos@.len() ==> (#[trigger] todos@[i]).id >= 0,
    ensures
        exists|shown: Seq<Seq<char>>, tags: Seq<Seq<char>>|
            table_rendering(todos@, shown, tags, r@),
{
    let sep = repeat_char('\u{2500}', 80);
    proof {
        assert(sep@ =~= table_sep());
    }
    let mut out = String::from_str("\nTodos:\n");
    out.append(sep.as_str());
    out.append("\n");
    let n = todos.len();
    let mut body = String::new();
    let ghost mut shown: Seq<Seq<char>> = Seq::empty();
    let ghost mut tags: Seq<Seq<char>> = Seq::empty();
    let mut completed_count: usize = 0;
    let mut pending_count: usize = 0;
    let mut i: usize = 0;
    proof {
        assert(todos@.take(0) =~= Seq::<Todo>::empty());
    }
    while i < n
        invariant
            n == todos@.len(),
            0 <= i <= n,
            forall|k: int| 0 <= k < todos@.len() ==> (#[trigger] todos@[k]).id >= 0,
            shown.len() == i,
            tags.len() == i,
            completed_count <= i,
            pending_count <= i,
            completed_count as nat == count_completed(todos@.take(i as int)),
            pending_count as nat == count_pending(todos@.take(i as int)),
            body@ == table_body(todos@.take(i as int), shown, tags),
            forall|k: int|
                0 <= k < i && todos@[k].completed != 1 ==> #[trigger] shown[k]
                    == todos@[k].text@,
            forall|k: int|
                0 <= k < i && todos@[k].completed == 1 && no_esc(todos@[k].text@) ==> painted(
                    #[trigger] shown[k],
                    todos@[k].text@,
                    dim_code(),
                ),
            forall|k: int|
                0 <= k < i && no_esc(upper_of(todos@[k].priority@)) ==> painted(
                    #[trigger] tags[k],
                    tag_text(todos@[k].priority@),
                    priority_code(todos@[k].priority@),
                ),
        decreases n - i,
    {
        let t = &todos[i];
        let mut line = if t.completed == 1 {
            String::from_str("\u{2713} ")
        } else {
            String::from_str("\u{25cb} ")
        };
        line.append(pad_left(i64_to_string(t.id).as_str(), 3).as_str());
        line.append(" ");
        if t.completed == 1 {
            completed_count += 1;
        } else if t.completed == 0 {
            pending_count += 1;
        }
        let shown_text = if t.completed == 1 {
            paint_dim(t.text.as_str())
        } else {
            t.text.clone()
        };
        line.append(shown_text.as_str());
        line.append(" ");
        let mut tag_in = String::from_str("[");
        tag_in.append(to_upper(t.priority.as_str()).as_str());
        tag_in.append("]");
        let rank = priority_rank(t.priority.as_str());
        let tag_out = if rank == 1 {
            paint_red(tag_in.as_str())
        } else if rank == 2 {
            paint_yellow(tag_in.as_str())
        } else if rank == 3 {
            paint_green(tag_in.as_str())
        } else {
            paint_white(tag_in.as_str())
        };
        line.append(tag_out.as_str());
        line.append("\n");
        body.append(line.as_str());
        proof {
            let shown_prev = shown;
            let tags_prev = tags;
            shown = shown.push(shown_text@);
            tags = tags.push(tag_out@);
            assert(shown.drop_last() =~= shown_prev);
            assert(tags.drop_last() =~= tags_prev);
            assert(todos@.take(i as int + 1).drop_last() =~= todos@.take(i as int));
            assert(todos@.take(i as int + 1).last() == todos@[i as int]);
            assert(tag_in@ == tag_text(t.priority@));
            if no_esc(upper_of(t.priority@)) {
                lemma_no_esc_bracketed(upper_of(t.priority@));
                assert(painted(tag_out@, tag_text(t.priority@), priority_code(t.priority@)));
            }
            assert(line@ == table_line(todos@[i as int], shown_text@, tag_out@));
            assert(body@ == table_body(todos@.take(i as int + 1), shown, tags));
        }
        i += 1;
    }
    proof {
        assert(todos@.take(n as int) =~= todos@);
    }
    let mut footer = repeat_char('\u{2500}', 80);
    proof {
        assert(footer@ =~= table_sep());
    }
    footer.append("\n");
    footer.append("Total: ");
    footer.append(usize_to_string(n).as_str());
    footer.append(" (");
    footer.append(usize_to_string(pending_count).as_str());
    footer.append(" pending, ");
    footer.append(usize_to_string(completed_count).as_str());
    footer.append(" completed)\n");
    out.append(body.as_str());
    out.append(footer.as_str());
    proof {
        assert(out@ == table_text(todos@, shown, tags));
        assert(table_rendering(todos@, shown, tags, out@));
    }
    out
}

} // verus!
