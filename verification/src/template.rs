//! Argument templates: the placeholder for the script's path and its
//! expansion into the argument vector of the child process.

use vstd::prelude::*;
use vstd::string::{StrSliceExecFns, StringExecFns};
use crate::text::{chars_of, texts};

verus! {

/// The placeholder `{file}`, which stands for the script's path.
pub open spec fn placeholder() -> Seq<char> {
    seq!['{', 'f', 'i', 'l', 'e', '}']
}

/// The template entry `t` with every occurrence of the placeholder replaced
/// by `path`, read from left to right. Whatever else the entry holds stays
/// as it is, and the path itself is not searched again.
pub open spec fn expanded(t: Seq<char>, path: Seq<char>) -> Seq<char>
    decreases t.len(),
{
    if t.len() < 6 {
        t
    } else if t.take(6) == placeholder() {
        path + expanded(t.skip(6), path)
    } else {
        seq![t[0]] + expanded(t.skip(1), path)
    }
}

/// The argument vector: each template entry expanded, then the user's
/// arguments as they are.
pub open spec fn command_line(
    template: Seq<Seq<char>>,
    path: Seq<char>,
    user_args: Seq<Seq<char>>,
) -> Seq<Seq<char>> {
    Seq::new(template.len(), |i: int| expanded(template[i], path)) + user_args
}

/// The text `{file}` is the placeholder.
pub proof fn lemma_placeholder_text()
    ensures
        "{file}"@ == placeholder(),
{
    reveal_strlit("{file}");
    assert("{file}"@ =~= placeholder());
}

/// Replaces every occurrence of `{file}` in `template` by `path`.
pub fn expand(template: &str, path: &str) -> (r: String)
    ensures
        r@ == expanded(template@, path@),
{
    let chars = chars_of(template);
    let ghost t = template@;
    let n = chars.len();
    let mut out = String::new();
    let mut start: usize = 0;
    let mut i: usize = 0;
    assert(t.skip(0) =~= t);
    assert(out@ + t.subrange(0, 0) + expanded(t.skip(0), path@) =~= expanded(t, path@));
    while n - i >= 6
        invariant
            chars@ == t,
            t == template@,
            n == chars.len(),
            start <= i <= n,
            expanded(t, path@) == out@ + t.subrange(start as int, i as int) + expanded(
                t.skip(i as int),
                path@,
            ),
        decreases n - i,
    {
        let ghost rest = t.skip(i as int);
        let ghost window = rest.take(6);
        assert(forall|k: int| 0 <= k < 6 ==> window[k] == t[i + k]);
        if chars[i] == '{' && chars[i + 1] == 'f' && chars[i + 2] == 'i' && chars[i + 3] == 'l'
            && chars[i + 4] == 'e' && chars[i + 5] == '}' {
            assert(window =~= placeholder());
            assert(rest.skip(6) =~= t.skip(i + 6));
            let ghost before = out@;
            out.append(template.substring_char(start, i));
            out.append(path);
            assert(out@ + t.subrange(i + 6, i + 6) + expanded(t.skip(i + 6), path@) =~= before
                + t.subrange(start as int, i as int) + expanded(rest, path@));
            i += 6;
            start = i;
        } else {
            assert(window != placeholder()) by {
                if window == placeholder() {
                    assert(placeholder()[0] == '{' && placeholder()[1] == 'f' && placeholder()[2]
                        == 'i' && placeholder()[3] == 'l' && placeholder()[4] == 'e'
                        && placeholder()[5] == '}');
                    assert(window[0] == t[i + 0] && window[1] == t[i + 1] && window[2] == t[i
                        + 2] && window[3] == t[i + 3] && window[4] == t[i + 4] && window[5] == t[i
                        + 5]);
                }
            }
            assert(rest.skip(1) =~= t.skip(i + 1));
            assert(out@ + t.subrange(start as int, i + 1) + expanded(t.skip(i + 1), path@)
                =~= out@ + t.subrange(start as int, i as int) + expanded(rest, path@));
            i += 1;
        }
    }
    assert(expanded(t.skip(i as int), path@) == t.skip(i as int));
    let ghost before = out@;
    out.append(template.substring_char(start, n));
    assert(out@ =~= before + t.subrange(start as int, i as int) + t.skip(i as int));
    out
}

/// The argument vector for a script at `path`: each entry of `template`
/// expanded, then `user_args` as they are.
pub fn expand_args(template: &Vec<String>, path: &str, user_args: &Vec<String>) -> (r: Vec<
    String,
>)
    ensures
        texts(r@) == command_line(texts(template@), path@, texts(user_args@)),
{
    let mut out: Vec<String> = Vec::new();
    let mut i: usize = 0;
    while i < template.len()
        invariant
            i <= template.len(),
            out.len() == i,
            forall|k: int| 0 <= k < i ==> out@[k]@ == expanded(template@[k]@, path@),
        decreases template.len() - i,
    {
        out.push(expand(template[i].as_str(), path));
        i += 1;
    }
    let mut j: usize = 0;
    while j < user_args.len()
        invariant
            j <= user_args.len(),
            out.len() == template.len() + j,
            forall|k: int|
                0 <= k < template.len() ==> out@[k]@ == expanded(template@[k]@, path@),
            forall|k: int| 0 <= k < j ==> out@[template.len() + k]@ == user_args@[k]@,
        decreases user_args.len() - j,
    {
        out.push(user_args[j].clone());
        j += 1;
    }
    assert(texts(out@) =~= command_line(texts(template@), path@, texts(user_args@)));
    out
}

} // verus!
