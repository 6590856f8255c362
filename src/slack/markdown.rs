//! Markdown to Slack mrkdwn, mentions and chunking.
//!
//! Links `[text](url)` become `<url|text>`, headers become bold lines,
//! `**` and `__` become `*`, and `~~` becomes `~`.

use vstd::prelude::*;
use vstd::string::*;

use crate::text::{
    chars_of, find_char_from, joined, lemma_next_index_of_bounds, lemma_shifted_index, lines,
    lines_of, next_index_of, replace_all, replaced, strings_view, trim, trim_start, trim_start_seq,
    trimmed,
};

verus! {

/// Longest Slack message, in characters.
pub const SLACK_MAX_MESSAGE_LEN: usize = 40_000;

/// Markdown links `[text](url)` rewritten as `<url|text>`; text that is not
/// a complete link is kept.
pub open spec fn links_converted(s: Seq<char>) -> Seq<char>
    decreases s.len(),
{
    if s.len() == 0 {
        Seq::empty()
    } else if s[0] != '[' {
        seq![s[0]] + links_converted(s.skip(1))
    } else {
        let rest = s.skip(1);
        let j = next_index_of(rest, ']', 0);
        let text = rest.take(j);
        if j < 0 || j >= rest.len() {
            "["@ + text
        } else {
            let after = rest.skip(j + 1);
            if after.len() > 0 && after[0] == '(' {
                let u = after.skip(1);
                let k = next_index_of(u, ')', 0);
                if k < 0 || k >= u.len() {
                    "["@ + text + "]("@ + u
                } else {
                    "<"@ + u.take(k) + "|"@ + text + ">"@ + links_converted(u.skip(k + 1))
                }
            } else {
                "["@ + text + "]"@ + links_converted(after)
            }
        }
    }
}

/// One step of the link rewrite at position `i`: what it writes and where
/// the next step starts.
#[verifier::rlimit(50)]
fn link_step(text: &str, chars: &Vec<char>, i: usize) -> (r: (String, usize))
    requires
        chars@ == text@,
        i < chars.len(),
    ensures
        i < r.1 <= chars.len(),
        r.0@ + links_converted(text@.skip(r.1 as int)) == links_converted(text@.skip(i as int)),
{
    let n = chars.len();
    let ghost s = text@;
    let ghost t = s.skip(i as int);
    let mut out = String::new();
    if chars[i] != '[' {
        out.append(text.substring_char(i, i + 1));
        assert(text@.subrange(i as int, i + 1) =~= seq![t[0]]);
        assert(t.skip(1) =~= s.skip(i + 1));
        return (out, i + 1);
    }
    let ghost rest = t.skip(1);
    assert(rest =~= s.skip(i + 1));
    let j = find_char_from(chars, ']', i + 1);
    proof {
        lemma_shifted_index(s, ']', i + 1, i + 1);
        lemma_next_index_of_bounds(rest, ']', 0);
    }
    let ghost jj = j - (i + 1);
    assert(rest.take(jj) =~= s.subrange(i + 1, j as int));
    if j >= n {
        out.append("[");
        out.append(text.substring_char(i + 1, n));
        assert(s.skip(n as int) =~= Seq::<char>::empty());
        assert(out@ + links_converted(s.skip(n as int)) =~= links_converted(t));
        return (out, n);
    }
    if j + 1 < n && chars[j + 1] == '(' {
        let ghost after = rest.skip(jj + 1);
        let ghost u = after.skip(1);
        assert(u =~= s.skip(j + 2));
        let k = find_char_from(chars, ')', j + 2);
        proof {
            lemma_shifted_index(s, ')', j + 2, j + 2);
            lemma_next_index_of_bounds(u, ')', 0);
        }
        let ghost kk = k - (j + 2);
        if k >= n {
            out.append("[");
            out.append(text.substring_char(i + 1, j));
            out.append("](");
            out.append(text.substring_char(j + 2, n));
            assert(u =~= s.subrange(j + 2, n as int));
            assert(s.skip(n as int) =~= Seq::<char>::empty());
            assert(out@ + links_converted(s.skip(n as int)) =~= links_converted(t));
            return (out, n);
        }
        out.append("<");
        out.append(text.substring_char(j + 2, k));
        out.append("|");
        out.append(text.substring_char(i + 1, j));
        out.append(">");
        assert(u.take(kk) =~= s.subrange(j + 2, k as int));
        assert(u.skip(kk + 1) =~= s.skip(k + 1));
        assert(out@ + links_converted(s.skip(k + 1)) =~= links_converted(t));
        return (out, k + 1);
    }
    out.append("[");
    out.append(text.substring_char(i + 1, j));
    out.append("]");
    assert(rest.skip(jj + 1) =~= s.skip(j + 1));
    assert(out@ + links_converted(s.skip(j + 1)) =~= links_converted(t));
    (out, j + 1)
}

/// Rewrite Markdown links for Slack.
fn convert_links(text: &str) -> (r: String)
    ensures
        r@ == links_converted(text@),
{
    let chars = chars_of(text);
    let n = chars.len();
    let ghost s = text@;
    let mut out = String::new();
    let mut i: usize = 0;
    assert(s.skip(0) =~= s);
    while i < n
        invariant
            s == text@,
            chars@ == s,
            n == s.len(),
            i <= n,
            out@ + links_converted(s.skip(i as int)) == links_converted(s),
        decreases n - i,
    {
        let ghost before = out@;
        let (piece, next) = link_step(text, &chars, i);
        out.append(piece.as_str());
        assert(out@ + links_converted(s.skip(next as int)) =~= before + (piece@ + links_converted(
            s.skip(next as int),
        )));
        i = next;
    }
    assert(out@ + links_converted(s.skip(n as int)) =~= out@);
    out
}

/// How many `#` a header line starts with, at most six.
pub open spec fn header_marks(t: Seq<char>) -> int {
    if t.len() >= 6 && t.take(6) == "######"@ {
        6
    } else if t.len() >= 5 && t.take(5) == "#####"@ {
        5
    } else if t.len() >= 4 && t.take(4) == "####"@ {
        4
    } else if t.len() >= 3 && t.take(3) == "###"@ {
        3
    } else if t.len() >= 2 && t.take(2) == "##"@ {
        2
    } else if t.len() >= 1 && t[0] == '#' {
        1
    } else {
        0
    }
}

/// A header line as a bold line; other lines unchanged.
pub open spec fn header_converted(line: Seq<char>) -> Seq<char> {
    let t = trim_start_seq(line);
    let k = header_marks(t);
    if k > 0 {
        "*"@ + trim_start_seq(t.skip(k)) + "*"@
    } else {
        line
    }
}

pub open spec fn headers_converted(text: Seq<char>) -> Seq<char> {
    joined(lines_of(text).map_values(|l: Seq<char>| header_converted(l)), "\n"@)
}

fn count_marks(t: &str) -> (r: usize)
    ensures
        r == header_marks(t@),
{
    proof {
        reveal_strlit("######");
        reveal_strlit("#####");
        reveal_strlit("####");
        reveal_strlit("###");
        reveal_strlit("##");
    }
    let chars = chars_of(t);
    let mut k: usize = 0;
    while k < 6 && k < chars.len() && chars[k] == '#'
        invariant
            chars@ == t@,
            k <= 6,
            k <= chars.len(),
            forall|j: int| 0 <= j < k ==> chars@[j] == '#',
        decreases 6 - k,
    {
        k = k + 1;
    }
    proof {
        if k >= 2 {
            assert(t@.take(2) =~= "##"@);
        }
        if k >= 3 {
            assert(t@.take(3) =~= "###"@);
        }
        if k >= 4 {
            assert(t@.take(4) =~= "####"@);
        }
        if k >= 5 {
            assert(t@.take(5) =~= "#####"@);
        }
        if k >= 6 {
            assert(t@.take(6) =~= "######"@);
        }
        if k < 6 {
            if t@.len() >= 6 {
                assert(t@.take(6)[k as int] != "######"@[k as int]);
            }
            if k < 5 && t@.len() >= 5 {
                assert(t@.take(5)[k as int] != "#####"@[k as int]);
            }
            if k < 4 && t@.len() >= 4 {
                assert(t@.take(4)[k as int] != "####"@[k as int]);
            }
            if k < 3 && t@.len() >= 3 {
                assert(t@.take(3)[k as int] != "###"@[k as int]);
            }
            if k < 2 && t@.len() >= 2 {
                assert(t@.take(2)[k as int] != "##"@[k as int]);
            }
        }
    }
    k
}

/// Turn Markdown header lines into bold lines.
fn convert_headers(text: &str) -> (r: String)
    ensures
        r@ == headers_converted(text@),
{
    let ls = lines(text);
    let ghost conv = strings_view(ls@).map_values(|l: Seq<char>| header_converted(l));
    let mut out = String::new();
    let mut i: usize = 0;
    while i < ls.len()
        invariant
            i <= ls.len(),
            strings_view(ls@) == lines_of(text@),
            conv == strings_view(ls@).map_values(|l: Seq<char>| header_converted(l)),
            out@ == joined(conv.take(i as int), "\n"@),
        decreases ls.len() - i,
    {
        let line = ls[i].as_str();
        let t = trim_start(line);
        let k = count_marks(t);
        let ghost before = out@;
        if i > 0 {
            out.append("\n");
        }
        if k > 0 {
            let rest = t.substring_char(k, t.unicode_len());
            let body = trim_start(rest);
            out.append("*");
            out.append(body);
            out.append("*");
            assert(rest@ =~= t@.skip(k as int));
        } else {
            out.append(line);
        }
        proof {
            let pre = conv.take(i as int);
            let post = conv.take(i as int + 1);
            assert(post.drop_last() =~= pre);
            assert(post.last() == header_converted(ls@[i as int]@));
            assert(strings_view(ls@)[i as int] == ls@[i as int]@);
        }
        i = i + 1;
    }
    assert(conv.take(ls.len() as int) =~= conv);
    out
}

/// The mrkdwn form of a Markdown text.
pub open spec fn slack_text(text: Seq<char>) -> Seq<char> {
    replaced(
        replaced(replaced(headers_converted(links_converted(text)), "**"@, "*"@), "__"@, "*"@),
        "~~"@,
        "~"@,
    )
}

/// Convert Markdown to Slack mrkdwn.
pub fn markdown_to_slack(text: &str) -> (r: String)
    ensures
        r@ == slack_text(text@),
{
    proof {
        reveal_strlit("**");
        reveal_strlit("__");
        reveal_strlit("~~");
    }
    let linked = convert_links(text);
    let headed = convert_headers(linked.as_str());
    let bold = replace_all(headed.as_str(), "**", "*");
    let under = replace_all(bold.as_str(), "__", "*");
    replace_all(under.as_str(), "~~", "~")
}

/// The text with the bot's mention forms `<@id>` and `<@id|` removed, then
/// trimmed.
pub open spec fn without_mentions(text: Seq<char>, bot_user_id: Option<Seq<char>>) -> Seq<char> {
    match bot_user_id {
        Some(id) => trimmed(
            replaced(replaced(text, "<@"@ + id + ">"@, seq![]), "<@"@ + id + "|"@, seq![]),
        ),
        None => trimmed(text),
    }
}

/// Remove mentions of the bot and trim the rest.
pub fn strip_mentions(text: &str, bot_user_id: Option<&str>) -> (r: String)
    ensures
        r@ == without_mentions(text@, match bot_user_id {
            Some(id) => Some(id@),
            None => None,
        }),
{
    match bot_user_id {
        Some(id) => {
            proof {
                reveal_strlit("<@");
                reveal_strlit("");
                assert(""@ =~= Seq::<char>::empty());
            }
            let mut plain = String::from_str("<@");
            plain.append(id);
            plain.append(">");
            let mut open = String::from_str("<@");
            open.append(id);
            open.append("|");
            let once = replace_all(text, plain.as_str(), "");
            let twice = replace_all(once.as_str(), open.as_str(), "");
            String::from_str(trim(twice.as_str()))
        },
        None => String::from_str(trim(text)),
    }
}

/// A line longer than `max` cut into pieces of `max` characters, and the
/// shorter rest.
pub open spec fn pieces(l: Seq<char>, max: int) -> (Seq<Seq<char>>, Seq<char>)
    decreases l.len(),
{
    if l.len() <= max || max <= 0 {
        (Seq::empty(), l)
    } else {
        let (ps, rest) = pieces(l.skip(max), max);
        (seq![l.take(max)] + ps, rest)
    }
}

/// One line added to the chunks so far and the chunk being filled.
pub open spec fn chunk_step(
    st: (Seq<Seq<char>>, Seq<char>),
    line: Seq<char>,
    max: int,
) -> (Seq<Seq<char>>, Seq<char>) {
    let (chunks, cur) = st;
    if cur.len() + line.len() + 1 > max {
        let flushed = if cur.len() > 0 {
            chunks.push(cur)
        } else {
            chunks
        };
        if line.len() > max {
            let (ps, rest) = pieces(line, max);
            (flushed + ps, rest)
        } else {
            (flushed, line)
        }
    } else if cur.len() > 0 {
        (chunks, cur + seq!['\n'] + line)
    } else {
        (chunks, line)
    }
}

pub open spec fn chunk_fold(ls: Seq<Seq<char>>, max: int) -> (Seq<Seq<char>>, Seq<char>)
    decreases ls.len(),
{
    if ls.len() == 0 {
        (Seq::empty(), Seq::empty())
    } else {
        chunk_step(chunk_fold(ls.drop_last(), max), ls.last(), max)
    }
}

/// The chunks of a message: whole lines joined while they fit, over-long
/// lines cut at the limit.
pub open spec fn message_chunks(text: Seq<char>, max: int) -> Seq<Seq<char>> {
    if text.len() <= max {
        seq![text]
    } else {
        let (chunks, cur) = chunk_fold(lines_of(text), max);
        if cur.len() > 0 {
            chunks.push(cur)
        } else {
            chunks
        }
    }
}

fn cut_pieces(line: &str, max: usize, out: &mut Vec<String>) -> (rest: String)
    requires
        max > 0,
    ensures
        strings_view(final(out)@) == strings_view(old(out)@) + pieces(line@, max as int).0,
        rest@ == pieces(line@, max as int).1,
{
    let n = line.unicode_len();
    let mut pos: usize = 0;
    let ghost start = strings_view(out@);
    assert(line@.skip(0) =~= line@);
    while n - pos > max
        invariant
            n == line@.len(),
            pos <= n,
            max > 0,
            strings_view(out@) + pieces(line@.skip(pos as int), max as int).0 == start + pieces(line@, max as int).0,
            pieces(line@.skip(pos as int), max as int).1 == pieces(line@, max as int).1,
        decreases n - pos,
    {
        let ghost t = line@.skip(pos as int);
        let ghost before = strings_view(out@);
        out.push(String::from_str(line.substring_char(pos, pos + max)));
        assert(t.take(max as int) =~= line@.subrange(pos as int, pos + max));
        assert(t.skip(max as int) =~= line@.skip(pos + max));
        assert(strings_view(out@) =~= before.push(t.take(max as int)));
        assert(strings_view(out@) + pieces(line@.skip(pos + max), max as int).0 =~= before + pieces(t, max as int).0);
        pos = pos + max;
    }
    assert(line@.skip(pos as int) =~= line@.subrange(pos as int, n as int));
    assert(strings_view(out@) + Seq::<Seq<char>>::empty() =~= strings_view(out@));
    String::from_str(line.substring_char(pos, n))
}

/// Split a message into chunks of at most `max_len` characters, at line
/// ends where possible.
pub fn chunk_message(text: &str, max_len: usize) -> (r: Vec<String>)
    requires
        max_len > 0,
    ensures
        strings_view(r@) == message_chunks(text@, max_len as int),
{
    let mut chunks: Vec<String> = Vec::new();
    if text.unicode_len() <= max_len {
        chunks.push(String::from_str(text));
        assert(strings_view(chunks@) =~= seq![text@]);
        return chunks;
    }
    let ls = lines(text);
    let ghost lv = strings_view(ls@);
    let mut current = String::new();
    let mut i: usize = 0;
    while i < ls.len()
        invariant
            lv == strings_view(ls@),
            lv == lines_of(text@),
            max_len > 0,
            i <= ls.len(),
            (strings_view(chunks@), current@) == chunk_fold(lv.take(i as int), max_len as int),
        decreases ls.len() - i,
    {
        proof {
            assert(lv.take(i as int + 1).drop_last() =~= lv.take(i as int));
            assert(lv.take(i as int + 1).last() == ls@[i as int]@);
        }
        let line = ls[i].as_str();
        let ll = line.unicode_len();
        let cl = current.as_str().unicode_len();
        let ghost before = strings_view(chunks@);
        if cl as u128 + ll as u128 + 1 > max_len as u128 {
            if cl > 0 {
                let ghost done = current@;
                chunks.push(current);
                current = String::new();
                assert(strings_view(chunks@) =~= before.push(done));
            }
            let ghost flushed = strings_view(chunks@);
            if ll > max_len {
                current = cut_pieces(line, max_len, &mut chunks);
            } else {
                current = String::from_str(line);
            }
        } else {
            if cl > 0 {
                current.append("\n");
                proof {
                    reveal_strlit("\n");
                }
            }
            current.append(line);
        }
        i = i + 1;
    }
    assert(lv.take(ls.len() as int) =~= lv);
    if current.as_str().unicode_len() > 0 {
        let ghost before = strings_view(chunks@);
        chunks.push(current);
        assert(strings_view(chunks@) =~= before.push(current@));
    }
    chunks
}

} // verus!
