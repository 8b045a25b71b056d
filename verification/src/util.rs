//! Quoting for a remote shell, and what a finished git command says.

use crate::failure::{fail, Failure};
use crate::text::{
    has_prefix, join, joined, joined_from_the_front, replace, replaced, trim, trimmed, views,
};
use vstd::prelude::*;
use vstd::string::*;

verus! {

/// A string in single quotes, as a POSIX shell reads them: each single quote
/// in it closes the quotes, stands escaped, and opens them again.
pub open spec fn quoted(s: Seq<char>) -> Seq<char> {
    "'"@ + replaced(s, "'"@, "'\\''"@) + "'"@
}

/// A string in single quotes for a remote POSIX shell.
pub fn sh_quote(s: &str) -> (r: String)
    ensures
        r@ == quoted(s@),
{
    proof {
        reveal_strlit("'");
    }
    "'".to_string().concat(replace(s, "'", "'\\''").as_str()).concat("'")
}

/// The characters that end a word, or mean something else than themselves, to
/// a shell outside of quotes.
pub open spec fn is_special(c: char) -> bool {
    ||| c == ' ' || c == '\t' || c == '\n'
    ||| c == '|' || c == '&' || c == ';' || c == '<' || c == '>'
    ||| c == '(' || c == ')' || c == '$' || c == '`' || c == '"'
    ||| c == '*' || c == '?' || c == '[' || c == '#' || c == '~' || c == '=' || c == '%'
}

/// The words that a shell reads from a text, from inside or outside of single
/// quotes, with a word begun or none: none where the quotes are not closed, or
/// where a character means something else than itself.
pub open spec fn shell_words(s: Seq<char>, in_quotes: bool, begun: Option<Seq<char>>) -> Option<
    Seq<Seq<char>>,
>
    decreases s.len(),
{
    let word = match begun {
        Some(w) => w,
        None => Seq::empty(),
    };
    if s.len() == 0 {
        if in_quotes {
            None
        } else {
            match begun {
                Some(w) => Some(seq![w]),
                None => Some(Seq::empty()),
            }
        }
    } else if s[0] == '\'' {
        shell_words(s.skip(1), !in_quotes, Some(word))
    } else if in_quotes {
        shell_words(s.skip(1), true, Some(word.push(s[0])))
    } else if s[0] == '\\' {
        if s.len() < 2 {
            None
        } else if s[1] == '\n' {
            shell_words(s.skip(2), false, begun)
        } else {
            shell_words(s.skip(2), false, Some(word.push(s[1])))
        }
    } else if s[0] == ' ' {
        match shell_words(s.skip(1), false, None) {
            Some(rest) => match begun {
                Some(w) => Some(seq![w] + rest),
                None => Some(rest),
            },
            None => None,
        }
    } else if is_special(s[0]) {
        None
    } else {
        shell_words(s.skip(1), false, Some(word.push(s[0])))
    }
}

proof fn lemma_words_inside_quotes(s: Seq<char>, rest: Seq<char>, word: Seq<char>)
    ensures
        shell_words(replaced(s, "'"@, "'\\''"@) + "'"@ + rest, true, Some(word)) == shell_words(
            rest,
            false,
            Some(word + s),
        ),
    decreases s.len(),
{
    reveal_strlit("'");
    reveal_strlit("'\\''");
    let t = replaced(s, "'"@, "'\\''"@) + "'"@ + rest;
    if s.len() == 0 {
        assert(t.skip(1) =~= rest);
        assert(t[0] == '\'');
        assert(word + s =~= word);
    } else {
        let tail = s.skip(1);
        let after = replaced(tail, "'"@, "'\\''"@) + "'"@ + rest;
        lemma_words_inside_quotes(tail, rest, word.push(s[0]));
        assert(word.push(s[0]) + tail =~= word + s);
        if has_prefix(s, "'"@) {
            assert(s.take(1)[0] == s[0]);
            let a = t.skip(1);
            let b = a.skip(2);
            assert(a[0] == '\\' && a[1] == '\'');
            assert(b[0] == '\'');
            assert(b.skip(1) =~= after);
            assert(shell_words(t, true, Some(word)) == shell_words(a, false, Some(word)));
            assert(shell_words(a, false, Some(word)) == shell_words(
                b,
                false,
                Some(word.push(s[0])),
            ));
        } else {
            assert(s[0] != '\'') by {
                if s[0] == '\'' {
                    assert(s.take(1) =~= "'"@);
                }
            }
            assert(t[0] == s[0]);
            assert(t.skip(1) =~= after);
        }
    }
}

/// Words that are quoted one by one and written with spaces between them are
/// read by a shell as the same words.
pub proof fn quoted_words_arrive(words: Seq<Seq<char>>)
    ensures
        shell_words(joined(words.map_values(|w: Seq<char>| quoted(w)), " "@), false, None) == Some(
            words,
        ),
    decreases words.len(),
{
    reveal_strlit("'");
    reveal_strlit(" ");
    let list = words.map_values(|w: Seq<char>| quoted(w));
    let line = joined(list, " "@);
    if words.len() == 0 {
        assert(words =~= Seq::<Seq<char>>::empty());
    } else {
        let w = words[0];
        let rest = if words.len() == 1 {
            Seq::<char>::empty()
        } else {
            " "@ + joined(list.skip(1), " "@)
        };
        if words.len() > 1 {
            joined_from_the_front(list, " "@);
        }
        assert(list[0] == quoted(w));
        assert(line =~= quoted(w) + rest);
        let inside = replaced(w, "'"@, "'\\''"@) + "'"@ + rest;
        assert(line[0] == '\'');
        assert(line.skip(1) =~= inside);
        lemma_words_inside_quotes(w, rest, Seq::empty());
        assert(Seq::<char>::empty() + w =~= w);
        if words.len() == 1 {
            assert(words =~= seq![w]);
        } else {
            let tail = words.skip(1);
            quoted_words_arrive(tail);
            assert(tail.map_values(|w: Seq<char>| quoted(w)) =~= list.skip(1));
            assert(rest.skip(1) =~= joined(list.skip(1), " "@));
            assert(rest[0] == ' ');
            assert(seq![w] + tail =~= words);
        }
    }
}

/// A shell reads a quoted string as one word, and that word is the string.
pub proof fn quoting_is_undone_by_the_shell(s: Seq<char>)
    ensures
        shell_words(quoted(s), false, None) == Some(seq![s]),
{
    let words = seq![s];
    quoted_words_arrive(words);
    assert(words.map_values(|w: Seq<char>| quoted(w)) =~= seq![quoted(s)]);
}

/// What a finished git command gives: its output, trimmed, or what is said
/// where it failed.
pub open spec fn git_result(
    args: Seq<Seq<char>>,
    success: bool,
    stdout: Seq<char>,
    stderr: Seq<char>,
) -> Result<Seq<char>, Seq<char>> {
    if success {
        Ok(trimmed(stdout))
    } else {
        Err("git "@ + joined(args, " "@) + " failed: "@ + trimmed(stderr))
    }
}

/// The output of a finished git command, trimmed.
pub fn git_capture(args: &Vec<String>, success: bool, stdout: &str, stderr: &str) -> (r: Result<
    String,
    Failure,
>)
    ensures
        match (r, git_result(views(args@), success, stdout@, stderr@)) {
            (Ok(out), Ok(text)) => out@ == text,
            (Err(failure), Err(text)) => failure@ == text,
            _ => false,
        },
{
    if success {
        Ok(trim(stdout).to_string())
    } else {
        Err(
            fail(
                "git ".to_string().concat(join(args, " ").as_str()).concat(" failed: ").concat(
                    trim(stderr),
                ),
            ),
        )
    }
}

/// The output of a git command that went well is given without the blanks
/// around it; one that failed is told with its words and its error output.
pub proof fn what_git_gives(args: Seq<Seq<char>>, stdout: Seq<char>, stderr: Seq<char>)
    ensures
        git_result(args, true, stdout, stderr) == Ok::<Seq<char>, Seq<char>>(trimmed(stdout)),
        git_result(args, false, stdout, stderr) == Err::<Seq<char>, Seq<char>>(
            "git "@ + joined(args, " "@) + " failed: "@ + trimmed(stderr),
        ),
{
}

} // verus!
