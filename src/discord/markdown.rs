//! Message formatting for Discord: mentions, truncation and chunking.

use vstd::prelude::*;
use vstd::string::*;

use crate::numbers::{decimal, decimal_string, lemma_decimal_nonempty};
use crate::text::{
    chars_of, contains_str, count_matches, ends_with, has_suffix, lines, lines_of, occurrences, occurs_in,
    replace_all, replaced, strings_view, trim, trimmed,
};

verus! {

/// Longest regular Discord message, in characters.
pub const DISCORD_MAX_MESSAGE_LEN: usize = 2000;

/// Longest embed description, in characters.
pub const DISCORD_EMBED_DESC_LEN: usize = 4096;

/// Discord renders Markdown itself, so text passes through unchanged.
pub fn format_for_discord(text: &str) -> (r: String)
    ensures
        r@ == text@,
{
    String::from_str(text)
}

/// The text cut to fit `max_len` characters, ending in `...` when cut.
pub open spec fn truncated(text: Seq<char>, max_len: int) -> Seq<char> {
    if text.len() <= max_len {
        text
    } else {
        text.take(if max_len >= 3 {
            max_len - 3
        } else {
            0
        }) + "..."@
    }
}

/// Truncate text to `max_len` characters, with an ellipsis if it was cut.
pub fn truncate_with_ellipsis(text: &str, max_len: usize) -> (r: String)
    ensures
        r@ == truncated(text@, max_len as int),
{
    let n = text.unicode_len();
    if n <= max_len {
        String::from_str(text)
    } else {
        let cut = if max_len >= 3 {
            max_len - 3
        } else {
            0
        };
        let mut s = String::from_str(text.substring_char(0, cut));
        s.append("...");
        assert(text@.subrange(0, cut as int) =~= text@.take(cut as int));
        s
    }
}

/// The two forms of a user mention: `<@id>` and `<@!id>`.
pub open spec fn mention_tag(id: u64) -> Seq<char> {
    "<@"@ + decimal(id as nat) + ">"@
}

pub open spec fn nick_mention_tag(id: u64) -> Seq<char> {
    "<@!"@ + decimal(id as nat) + ">"@
}

fn tag(prefix: &str, id: u64) -> (r: String)
    ensures
        r@ == prefix@ + decimal(id as nat) + ">"@,
        r@.len() > 0,
{
    let mut s = String::from_str(prefix);
    let digits = decimal_string(id);
    s.append(digits.as_str());
    s.append(">");
    proof {
        lemma_decimal_nonempty(id as nat);
    }
    s
}

/// The text with the bot's mentions removed and surrounding whitespace
/// trimmed.
pub open spec fn without_mentions(text: Seq<char>, bot_user_id: Option<u64>) -> Seq<char> {
    match bot_user_id {
        Some(id) => trimmed(
            replaced(replaced(text, mention_tag(id), seq![]), nick_mention_tag(id), seq![]),
        ),
        None => trimmed(text),
    }
}

/// Remove mentions of the bot and trim the rest.
pub fn strip_mentions(text: &str, bot_user_id: Option<u64>) -> (r: String)
    ensures
        r@ == without_mentions(text@, bot_user_id),
{
    match bot_user_id {
        Some(id) => {
            let plain = tag("<@", id);
            let nick = tag("<@!", id);
            let once = replace_all(text, plain.as_str(), "");
            let twice = replace_all(once.as_str(), nick.as_str(), "");
            proof {
                reveal_strlit("");
                assert(""@ =~= Seq::<char>::empty());
            }
            String::from_str(trim(twice.as_str()))
        },
        None => String::from_str(trim(text)),
    }
}

/// Whether the text mentions the bot.
pub fn mentions_bot(text: &str, bot_user_id: u64) -> (r: bool)
    ensures
        r == (occurs_in(text@, mention_tag(bot_user_id)) || occurs_in(
            text@,
            nick_mention_tag(bot_user_id),
        )),
{
    let plain = tag("<@", bot_user_id);
    let nick = tag("<@!", bot_user_id);
    contains_str(text, plain.as_str()) || contains_str(text, nick.as_str())
}

/// The last space in `s[lo..hi)`, or -1.
pub open spec fn last_space(s: Seq<char>, lo: int, hi: int) -> int
    decreases hi - lo,
{
    if hi <= lo {
        -1
    } else if s[hi - 1] == ' ' {
        hi - 1
    } else {
        last_space(s, lo, hi - 1)
    }
}

/// Where an over-long line is cut: at the last space among the 50
/// characters before the limit, else at the limit.
pub open spec fn split_point(s: Seq<char>, max: int) -> int {
    if s.len() <= max {
        s.len() as int
    } else {
        let p = last_space(s, if max > 50 {
            max - 50
        } else {
            0
        }, max);
        if p >= 0 {
            p
        } else {
            max
        }
    }
}

proof fn lemma_last_space_bounds(s: Seq<char>, lo: int, hi: int)
    ensures
        last_space(s, lo, hi) == -1 || lo <= last_space(s, lo, hi) < hi,
    decreases hi - lo,
{
    if hi > lo && s[hi - 1] != ' ' {
        lemma_last_space_bounds(s, lo, hi - 1);
    }
}

/// Find a split point near `max_len`, preferring a space.
fn find_split_point(text: &Vec<char>, max_len: usize) -> (r: usize)
    requires
        max_len < text.len(),
    ensures
        r == split_point(text@, max_len as int),
        max_len > 50 ==> 0 < r <= max_len,
{
    let lo: usize = if max_len > 50 {
        max_len - 50
    } else {
        0
    };
    let mut hi = max_len;
    while hi > lo && text[hi - 1] != ' '
        invariant
            lo <= hi <= max_len,
            max_len < text.len(),
            last_space(text@, lo as int, max_len as int) == last_space(text@, lo as int, hi as int),
        decreases hi,
    {
        hi = hi - 1;
    }
    proof {
        lemma_last_space_bounds(text@, lo as int, max_len as int);
    }
    if hi > lo {
        hi - 1
    } else {
        max_len
    }
}

/// An over-long line cut into pieces at split points, and the rest that
/// fits.
pub open spec fn line_pieces(l: Seq<char>, max: int) -> (Seq<Seq<char>>, Seq<char>)
    decreases l.len(),
{
    let k = split_point(l, max);
    if l.len() <= max || k <= 0 || k > l.len() {
        (Seq::empty(), l)
    } else {
        let (ps, rest) = line_pieces(l.skip(k), max);
        (seq![l.take(k)] + ps, rest)
    }
}

/// The code fence.
pub open spec fn fence() -> Seq<char> {
    "```"@
}

/// The state while chunking: chunks so far, the chunk being filled, and
/// whether a code block is open.
pub open spec fn discord_step(
    st: (Seq<Seq<char>>, Seq<char>, bool),
    line: Seq<char>,
    max: int,
) -> (Seq<Seq<char>>, Seq<char>, bool) {
    let (chunks, cur, in_code0) = st;
    let in_code = if occurrences(line, fence()) % 2 == 1 {
        !in_code0
    } else {
        in_code0
    };
    let extra = if cur.len() == 0 {
        line.len()
    } else {
        line.len() + 1
    };
    if cur.len() + extra > max {
        let flushed = if cur.len() > 0 {
            chunks.push(
                if in_code && !has_suffix(cur, fence()) {
                    cur + "\n```"@
                } else {
                    cur
                },
            )
        } else {
            chunks
        };
        if line.len() > max {
            let (ps, rest) = line_pieces(line, max);
            (flushed + ps, rest, in_code)
        } else {
            (flushed, line, in_code)
        }
    } else if cur.len() > 0 {
        (chunks, cur + seq!['\n'] + line, in_code)
    } else {
        (chunks, line, in_code)
    }
}

pub open spec fn discord_fold(ls: Seq<Seq<char>>, max: int) -> (Seq<Seq<char>>, Seq<char>, bool)
    decreases ls.len(),
{
    if ls.len() == 0 {
        (Seq::empty(), Seq::empty(), false)
    } else {
        discord_step(discord_fold(ls.drop_last(), max), ls.last(), max)
    }
}

/// The chunks of a message: lines joined while they fit; a chunk cut inside
/// a code block is closed with a fence; over-long lines are cut at spaces.
pub open spec fn discord_chunks(text: Seq<char>, max: int) -> Seq<Seq<char>> {
    if text.len() <= max {
        seq![text]
    } else {
        let (chunks, cur, _) = discord_fold(lines_of(text), max);
        if cur.len() > 0 {
            chunks.push(cur)
        } else {
            chunks
        }
    }
}

fn cut_line(line: &str, max: usize, out: &mut Vec<String>) -> (rest: String)
    requires
        max > 50,
    ensures
        strings_view(final(out)@) == strings_view(old(out)@) + line_pieces(line@, max as int).0,
        rest@ == line_pieces(line@, max as int).1,
{
    let chars = chars_of(line);
    let n = chars.len();
    let mut pos: usize = 0;
    let ghost start = strings_view(out@);
    assert(line@.skip(0) =~= line@);
    while n - pos > max
        invariant
            chars@ == line@,
            n == line@.len(),
            pos <= n,
            max > 50,
            strings_view(out@) + line_pieces(line@.skip(pos as int), max as int).0 == start
                + line_pieces(line@, max as int).0,
            line_pieces(line@.skip(pos as int), max as int).1 == line_pieces(line@, max as int).1,
        decreases n - pos,
    {
        let ghost t = line@.skip(pos as int);
        let ghost before = strings_view(out@);
        let tail = chars_of(line.substring_char(pos, n));
        assert(tail@ =~= t);
        let k = find_split_point(&tail, max);
        out.push(String::from_str(line.substring_char(pos, pos + k)));
        assert(t.take(k as int) =~= line@.subrange(pos as int, pos + k));
        assert(t.skip(k as int) =~= line@.skip(pos + k));
        assert(strings_view(out@) =~= before.push(t.take(k as int)));
        assert(strings_view(out@) + line_pieces(line@.skip(pos + k), max as int).0 =~= before
            + line_pieces(t, max as int).0);
        pos = pos + k;
    }
    assert(line@.skip(pos as int) =~= line@.subrange(pos as int, n as int));
    assert(strings_view(out@) + Seq::<Seq<char>>::empty() =~= strings_view(out@));
    String::from_str(line.substring_char(pos, n))
}

/// Split a message into chunks of at most `max_len` characters that
/// Discord accepts, keeping code blocks fenced across chunk borders. The
/// limit must exceed 50: the search for a space looks back that far.
pub fn chunk_message(text: &str, max_len: usize) -> (r: Vec<String>)
    requires
        max_len > 50,
    ensures
        strings_view(r@) == discord_chunks(text@, max_len as int),
{
    let mut chunks: Vec<String> = Vec::new();
    if text.unicode_len() <= max_len {
        chunks.push(String::from_str(text));
        assert(strings_view(chunks@) =~= seq![text@]);
        return chunks;
    }
    proof {
        reveal_strlit("```");
    }
    let ls = lines(text);
    let ghost lv = strings_view(ls@);
    let mut current = String::new();
    let mut in_code = false;
    let mut i: usize = 0;
    while i < ls.len()
        invariant
            lv == strings_view(ls@),
            lv == lines_of(text@),
            max_len > 50,
            i <= ls.len(),
            (strings_view(chunks@), current@, in_code) == discord_fold(
                lv.take(i as int),
                max_len as int,
            ),
        decreases ls.len() - i,
    {
        proof {
            assert(lv.take(i as int + 1).drop_last() =~= lv.take(i as int));
            assert(lv.take(i as int + 1).last() == ls@[i as int]@);
        }
        let line = ls[i].as_str();
        proof {
            reveal_strlit("```");
        }
        if count_matches(line, "```") % 2 == 1 {
            in_code = !in_code;
        }
        let ll = line.unicode_len();
        let cl = current.as_str().unicode_len();
        let extra: u128 = if cl == 0 {
            ll as u128
        } else {
            ll as u128 + 1
        };
        let ghost before = strings_view(chunks@);
        if cl as u128 + extra > max_len as u128 {
            if cl > 0 {
                if in_code && !ends_with(current.as_str(), "```") {
                    current.append("\n```");
                }
                let ghost done = current@;
                chunks.push(current);
                current = String::new();
                assert(strings_view(chunks@) =~= before.push(done));
            }
            if ll > max_len {
                current = cut_line(line, max_len, &mut chunks);
            } else {
                current = String::from_str(line);
            }
        } else {
            if cl > 0 {
                current.append("\n");
                proof {
                    reveal_strlit("\n");
                }
            }
            current.append(line);
        }
        i = i + 1;
    }
    assert(lv.take(ls.len() as int) =~= lv);
    if current.as_str().unicode_len() > 0 {
        let ghost before = strings_view(chunks@);
        chunks.push(current);
        assert(strings_view(chunks@) =~= before.push(current@));
    }
    chunks
}

} // verus!
