use vstd::prelude::*;
use vstd::string::*;

verus! {

broadcast use vstd::string::group_string_axioms;

/// Whether a character has the Unicode `White_Space` property.
pub open spec fn spec_is_whitespace(c: char) -> bool {
    let v = c as u32;
    ||| 0x9 <= v <= 0xD
    ||| v == 0x20
    ||| v == 0x85
    ||| v == 0xA0
    ||| v == 0x1680
    ||| 0x2000 <= v <= 0x200A
    ||| v == 0x2028
    ||| v == 0x2029
    ||| v == 0x202F
    ||| v == 0x205F
    ||| v == 0x3000
}

/// Whether a character has the Unicode `White_Space` property, as `char::is_whitespace`.
pub fn is_whitespace(c: char) -> (ws: bool)
    ensures
        ws == spec_is_whitespace(c),
{
    let v = c as u32;
    (0x9 <= v && v <= 0xD) || v == 0x20 || v == 0x85 || v == 0xA0 || v == 0x1680 || (0x2000 <= v
        && v <= 0x200A) || v == 0x2028 || v == 0x2029 || v == 0x202F || v == 0x205F || v == 0x3000
}

/// The words of each line of a text: a line ends at `'\n'`, and a word is a
/// longest run of characters that are not white space.
pub open spec fn spec_paragraphs(text: Seq<char>) -> Seq<Seq<Seq<char>>>
    decreases text.len(),
{
    if text.len() == 0 {
        seq![seq![]]
    } else {
        let pars = spec_paragraphs(text.drop_last());
        let c = text.last();
        if c == '\n' {
            pars.push(seq![])
        } else if spec_is_whitespace(c) {
            pars
        } else {
            let par = pars.last();
            if text.len() >= 2 && !spec_is_whitespace(text[text.len() - 2]) {
                pars.update(pars.len() - 1, par.update(par.len() - 1, par.last().push(c)))
            } else {
                pars.update(pars.len() - 1, par.push(seq![c]))
            }
        }
    }
}

/// Greedy filling of lines with words: a word goes on the current line, after
/// a space, when `fits` accepts the longer line, and starts a new line
/// otherwise. Gives the finished lines and the line being filled.
pub open spec fn spec_fill(words: Seq<Seq<char>>, fits: spec_fn(Seq<char>) -> bool) -> (
    Seq<Seq<char>>,
    Seq<char>,
)
    decreases words.len(),
{
    if words.len() == 0 {
        (seq![], seq![])
    } else {
        let (done, line) = spec_fill(words.drop_last(), fits);
        let word = words.last();
        if line.len() == 0 {
            (done, word)
        } else if fits(line + " "@ + word) {
            (done, line + " "@ + word)
        } else {
            (done.push(line), word)
        }
    }
}

/// The lines that the words of one line of text are wrapped into.
pub open spec fn spec_wrap_words(words: Seq<Seq<char>>, fits: spec_fn(Seq<char>) -> bool) -> Seq<
    Seq<char>,
> {
    let (done, line) = spec_fill(words, fits);
    if line.len() > 0 {
        done.push(line)
    } else {
        done
    }
}

/// The lines that the lines of a text, given by their words, are wrapped into.
pub open spec fn spec_wrap_paragraphs(
    pars: Seq<Seq<Seq<char>>>,
    fits: spec_fn(Seq<char>) -> bool,
) -> Seq<Seq<char>>
    decreases pars.len(),
{
    if pars.len() == 0 {
        seq![]
    } else {
        spec_wrap_paragraphs(pars.drop_last(), fits) + spec_wrap_words(pars.last(), fits)
    }
}

/// The lines that a text is wrapped into: each line of the text on its own,
/// its words filled greedily into lines that `fits` accepts; lines without
/// words give nothing.
pub open spec fn spec_wrap_text(text: Seq<char>, fits: spec_fn(Seq<char>) -> bool) -> Seq<
    Seq<char>,
> {
    spec_wrap_paragraphs(spec_paragraphs(text), fits)
}

/// Whether `fits` accepts a line with the given characters.
pub open spec fn spec_accepts<F: Fn(&str) -> bool>(fits: F, line: Seq<char>) -> bool {
    exists|s: &str| s@ == line && call_ensures(fits, (s,), true)
}

/// Whether `fits` gives the same answer for lines with the same characters.
pub open spec fn spec_consistent<F: Fn(&str) -> bool>(fits: F) -> bool {
    forall|a: &str, b: &str, x: bool, y: bool|
        a@ == b@ && #[trigger] call_ensures(fits, (a,), x) && #[trigger] call_ensures(fits, (b,), y)
            ==> x == y
}

fn collect_chars(text: &str) -> (chars: Vec<char>)
    ensures
        chars@ == text@,
{
    let mut chars: Vec<char> = Vec::new();
    for c in it: text.chars()
        invariant
            chars@ == it.seq().take(it.index() as int),
    {
        chars.push(c);
    }
    chars
}

fn ask<F: Fn(&str) -> bool>(fits: &F, line: &String) -> (accepted: bool)
    requires
        forall|s: &str| fits.requires((s,)),
        spec_consistent(*fits),
    ensures
        accepted == spec_accepts(*fits, line@),
{
    let s = line.as_str();
    let accepted = fits(s);
    if !accepted {
        assert(!spec_accepts(*fits, line@)) by {
            if spec_accepts(*fits, line@) {
                let other = choose|other: &str| other@ == line@ && call_ensures(*fits, (other,), true);
                assert(call_ensures(*fits, (s,), false));
            }
        }
    }
    accepted
}

/// Whether `ranges` gives, for each line and each word of `pars`, the start and
/// end of that word in `text`.
pub open spec fn spec_ranges_match(
    text: Seq<char>,
    ranges: Seq<Vec<(usize, usize)>>,
    pars: Seq<Seq<Seq<char>>>,
) -> bool {
    &&& ranges.len() == pars.len()
    &&& forall|p: int| 0 <= p < ranges.len() ==> (#[trigger] ranges[p])@.len() == pars[p].len()
    &&& forall|p: int, w: int|
        0 <= p < ranges.len() && 0 <= w < ranges[p]@.len() ==> {
            let (start, end) = #[trigger] ranges[p]@[w];
            &&& start < end <= text.len()
            &&& text.subrange(start as int, end as int) == pars[p][w]
        }
}

/// Where the words of each line of the text start and end.
fn word_ranges(chars: &Vec<char>) -> (ranges: Vec<Vec<(usize, usize)>>)
    ensures
        spec_ranges_match(chars@, ranges@, spec_paragraphs(chars@)),
{
    let mut ranges: Vec<Vec<(usize, usize)>> = Vec::new();
    ranges.push(Vec::new());
    let mut i: usize = 0;
    proof {
        assert(chars@.take(0) =~= Seq::<char>::empty());
        assert(ranges@[0]@ =~= Seq::<(usize, usize)>::empty());
    }
    while i < chars.len()
        invariant
            i <= chars@.len(),
            ranges@.len() >= 1,
            spec_ranges_match(chars@, ranges@, spec_paragraphs(chars@.take(i as int))),
            forall|p: int, w: int|
                0 <= p < ranges@.len() && 0 <= w < ranges@[p]@.len() ==> (#[trigger] ranges@[p]@[w]).1
                    <= i,
            i >= 1 && !spec_is_whitespace(chars@[i - 1]) ==> {
                &&& ranges@.last()@.len() >= 1
                &&& ranges@.last()@.last().1 == i
            },
        decreases chars.len() - i,
    {
        let c = chars[i];
        let ghost before = spec_paragraphs(chars@.take(i as int));
        let ghost old_ranges = ranges@;
        proof {
            assert(chars@.take(i + 1).drop_last() =~= chars@.take(i as int));
            assert(chars@.take(i + 1).last() == c);
        }
        if c == '\n' {
            ranges.push(Vec::new());
            proof {
                assert(spec_paragraphs(chars@.take(i + 1)) == before.push(seq![]));
                assert forall|p: int| 0 <= p < ranges@.len() implies (#[trigger] ranges@[p])@.len()
                    == spec_paragraphs(chars@.take(i + 1))[p].len() by {
                    if p < old_ranges.len() {
                        assert(ranges@[p] == old_ranges[p]);
                    }
                }
                assert forall|p: int, w: int|
                    0 <= p < ranges@.len() && 0 <= w < ranges@[p]@.len() implies {
                        let (start, end) = #[trigger] ranges@[p]@[w];
                        &&& start < end <= chars@.len()
                        &&& chars@.subrange(start as int, end as int) == spec_paragraphs(
                            chars@.take(i + 1),
                        )[p][w]
                        &&& end <= i + 1
                    } by {
                    assert(p < old_ranges.len());
                    assert(ranges@[p] == old_ranges[p]);
                }
            }
        } else if is_whitespace(c) {
            proof {
                assert(spec_paragraphs(chars@.take(i + 1)) == before);
            }
        } else {
            let mut par = ranges.pop().unwrap();
            let ghost old_par = par@;
            if i >= 1 && !is_whitespace(chars[i - 1]) {
                let (start, _) = par.pop().unwrap();
                par.push((start, i + 1));
                ranges.push(par);
                proof {
                    let last = before.len() - 1;
                    let bpar = before[last];
                    assert(spec_paragraphs(chars@.take(i + 1)) == before.update(
                        last,
                        bpar.update(bpar.len() - 1, bpar.last().push(c)),
                    ));
                    assert(chars@.subrange(start as int, i + 1) =~= chars@.subrange(
                        start as int,
                        i as int,
                    ).push(c));
                    assert(old_ranges[last]@[old_par.len() - 1] == (start, i));
                }
            } else {
                par.push((i, i + 1));
                ranges.push(par);
                proof {
                    let last = before.len() - 1;
                    let bpar = before[last];
                    assert(spec_paragraphs(chars@.take(i + 1)) == before.update(
                        last,
                        bpar.push(seq![c]),
                    ));
                    assert(chars@.subrange(i as int, i + 1) =~= seq![c]);
                }
            }
            proof {
                let after = spec_paragraphs(chars@.take(i + 1));
                let last = before.len() - 1;
                assert forall|p: int| 0 <= p < ranges@.len() implies (#[trigger] ranges@[p])@.len()
                    == after[p].len() by {
                    if p < last {
                        assert(ranges@[p] == old_ranges[p]);
                    }
                }
                assert forall|p: int, w: int|
                    0 <= p < ranges@.len() && 0 <= w < ranges@[p]@.len() implies {
                        let (start, end) = #[trigger] ranges@[p]@[w];
                        &&& start < end <= chars@.len()
                        &&& chars@.subrange(start as int, end as int) == after[p][w]
                        &&& end <= i + 1
                    } by {
                    if p < last {
                        assert(ranges@[p] == old_ranges[p]);
                    } else if w < ranges@[p]@.len() - 1 {
                        assert(ranges@[p]@[w] == old_ranges[p]@[w]);
                    }
                }
            }
        }
        i = i + 1;
    }
    proof {
        assert(chars@.take(chars.len() as int) =~= chars@);
    }
    ranges
}

/// Wraps a text into lines: each line of the text (ended by `'\n'`) is
/// wrapped on its own; its words (runs of characters that are not white
/// space) are put on the current line, separated by one space, for as long as
/// `fits` accepts the longer line, and a word that does not fit starts a new
/// line. Lines of the text without words give no line. `fits` must answer the
/// same for lines with the same characters.
pub fn wrap_text<F: Fn(&str) -> bool>(text: &str, fits: F) -> (lines: Vec<String>)
    requires
        forall|s: &str| fits.requires((s,)),
        spec_consistent(fits),
    ensures
        lines@.len() == spec_wrap_text(text@, |line: Seq<char>| spec_accepts(fits, line)).len(),
        forall|k: int|
            0 <= k < lines@.len() ==> #[trigger] lines@[k]@ == spec_wrap_text(
                text@,
                |line: Seq<char>| spec_accepts(fits, line),
            )[k],
{
    let ghost accepts = |line: Seq<char>| spec_accepts(fits, line);
    let chars = collect_chars(text);
    let ranges = word_ranges(&chars);
    let ghost pars = spec_paragraphs(text@);
    let mut lines: Vec<String> = Vec::new();
    let mut p: usize = 0;
    while p < ranges.len()
        invariant
            chars@ == text@,
            spec_ranges_match(chars@, ranges@, pars),
            p <= ranges@.len(),
            lines@.len() == spec_wrap_paragraphs(pars.take(p as int), accepts).len(),
            forall|k: int|
                0 <= k < lines@.len() ==> #[trigger] lines@[k]@ == spec_wrap_paragraphs(
                    pars.take(p as int),
                    accepts,
                )[k],
            forall|s: &str| fits.requires((s,)),
            spec_consistent(fits),
            accepts == (|line: Seq<char>| spec_accepts(fits, line)),
        decreases ranges.len() - p,
    {
        let words = &ranges[p];
        let ghost par = pars[p as int];
        let ghost done_before = lines@;
        let mut line = String::new();
        let mut w: usize = 0;
        while w < words.len()
            invariant
                chars@ == text@,
                spec_ranges_match(chars@, ranges@, pars),
                p < ranges@.len(),
                *words == ranges@[p as int],
                par == pars[p as int],
                w <= words@.len(),
                lines@.len() == done_before.len() + spec_fill(par.take(w as int), accepts).0.len(),
                forall|k: int| 0 <= k < done_before.len() ==> #[trigger] lines@[k] == done_before[k],
                forall|k: int|
                    0 <= k < spec_fill(par.take(w as int), accepts).0.len() ==> #[trigger] lines@[done_before.len() + k]@
                        == spec_fill(par.take(w as int), accepts).0[k],
                line@ == spec_fill(par.take(w as int), accepts).1,
                forall|s: &str| fits.requires((s,)),
                spec_consistent(fits),
                accepts == (|line: Seq<char>| spec_accepts(fits, line)),
            decreases words.len() - w,
        {
            let (start, end) = words[w];
            let word = text.substring_char(start, end);
            proof {
                assert(par.take(w + 1).drop_last() =~= par.take(w as int));
                assert(par.take(w + 1).last() == par[w as int]);
                assert(word@ == par[w as int]);
            }
            let ghost filled = spec_fill(par.take(w as int), accepts);
            if line.as_str().is_empty() {
                line = String::from_str(word);
            } else {
                let mut longer = line.clone();
                longer.append(" ");
                longer.append(word);
                if ask(&fits, &longer) {
                    line = longer;
                } else {
                    let ghost pushed_onto = lines@;
                    lines.push(line);
                    line = String::from_str(word);
                    proof {
                        assert forall|k: int|
                            0 <= k < filled.0.len() + 1 implies #[trigger] lines@[done_before.len()
                            + k]@ == filled.0.push(filled.1)[k] by {
                            if k < filled.0.len() {
                                assert(lines@[done_before.len() + k] == pushed_onto[done_before.len() + k]);
                            }
                        }
                    }
                }
            }
            w = w + 1;
        }
        proof {
            assert(par.take(words@.len() as int) =~= par);
        }
        let ghost filled_lines = lines@;
        let ghost last_line = line@;
        if !line.as_str().is_empty() {
            lines.push(line);
        }
        proof {
            let filled = spec_fill(par, accepts);
            let own = spec_wrap_words(par, accepts);
            assert(last_line == filled.1);
            assert(lines@.len() == done_before.len() + own.len());
            assert forall|k: int| 0 <= k < own.len() implies #[trigger] lines@[done_before.len()
                + k]@ == own[k] by {
                if k < filled.0.len() {
                    assert(lines@[done_before.len() + k] == filled_lines[done_before.len() + k]);
                }
            }
            assert(pars.take(p + 1).drop_last() =~= pars.take(p as int));
            assert(pars.take(p + 1).last() == par);
            let total = spec_wrap_paragraphs(pars.take(p + 1), accepts);
            assert(total == spec_wrap_paragraphs(pars.take(p as int), accepts) + own);
            assert forall|k: int| 0 <= k < lines@.len() implies #[trigger] lines@[k]@ == total[k] by {
                if k >= done_before.len() {
                    assert(lines@[done_before.len() + (k - done_before.len())]@ == own[k
                        - done_before.len()]);
                }
            }
        }
        p = p + 1;
    }
    proof {
        assert(pars.take(ranges@.len() as int) =~= pars);
    }
    lines
}

/// When every longer line fits, the words of a line of text all end up on
/// one line, separated by single spaces.
pub proof fn lemma_everything_fits(words: Seq<Seq<char>>)
    requires
        forall|k: int| 0 <= k < words.len() ==> (#[trigger] words[k]).len() > 0,
    ensures
        spec_fill(words, |line: Seq<char>| true).0.len() == 0,
        words.len() > 0 ==> spec_wrap_words(words, |line: Seq<char>| true).len() == 1,
        words.len() == 0 ==> spec_wrap_words(words, |line: Seq<char>| true).len() == 0,
    decreases words.len(),
{
    if words.len() > 0 {
        assert forall|k: int| 0 <= k < words.drop_last().len() implies (
        #[trigger] words.drop_last()[k]).len() > 0 by {
            assert(words.drop_last()[k] == words[k]);
        }
        lemma_everything_fits(words.drop_last());
        lemma_fill_line_nonempty(words, |line: Seq<char>| true);
    }
}

/// When no longer line fits, each word of a line of text gets a line of its
/// own.
pub proof fn lemma_nothing_fits(words: Seq<Seq<char>>)
    requires
        forall|k: int| 0 <= k < words.len() ==> (#[trigger] words[k]).len() > 0,
    ensures
        spec_wrap_words(words, |line: Seq<char>| false) == words,
    decreases words.len(),
{
    if words.len() > 0 {
        let prefix = words.drop_last();
        assert forall|k: int| 0 <= k < prefix.len() implies (#[trigger] prefix[k]).len() > 0 by {
            assert(prefix[k] == words[k]);
        }
        lemma_nothing_fits(prefix);
        let (done, line) = spec_fill(prefix, |line: Seq<char>| false);
        if prefix.len() == 0 {
            assert(spec_wrap_words(words, |line: Seq<char>| false) =~= words);
        } else {
            lemma_fill_line_nonempty(prefix, |line: Seq<char>| false);
            assert(done.push(line) == prefix);
            assert(spec_wrap_words(words, |line: Seq<char>| false) =~= words);
        }
    }
}

/// Filling words that are not empty leaves a line being filled that is not
/// empty, unless there are no words.
pub proof fn lemma_fill_line_nonempty(words: Seq<Seq<char>>, fits: spec_fn(Seq<char>) -> bool)
    requires
        forall|k: int| 0 <= k < words.len() ==> (#[trigger] words[k]).len() > 0,
    ensures
        words.len() > 0 ==> spec_fill(words, fits).1.len() > 0,
        words.len() == 0 ==> spec_fill(words, fits).1.len() == 0,
{
    if words.len() > 0 {
        assert(words.last() == words[words.len() - 1]);
    }
}

/// No line of a wrapped text is empty.
pub proof fn lemma_wrapped_lines_nonempty(words: Seq<Seq<char>>, fits: spec_fn(Seq<char>) -> bool)
    requires
        forall|k: int| 0 <= k < words.len() ==> (#[trigger] words[k]).len() > 0,
    ensures
        forall|k: int|
            0 <= k < spec_wrap_words(words, fits).len() ==> (#[trigger] spec_wrap_words(
                words,
                fits,
            )[k]).len() > 0,
    decreases words.len(),
{
    if words.len() > 0 {
        let prefix = words.drop_last();
        assert forall|k: int| 0 <= k < prefix.len() implies (#[trigger] prefix[k]).len() > 0 by {
            assert(prefix[k] == words[k]);
        }
        lemma_wrapped_lines_nonempty(prefix, fits);
        lemma_fill_line_nonempty(prefix, fits);
        lemma_fill_line_nonempty(words, fits);
        let (done, line) = spec_fill(prefix, fits);
        assert forall|k: int| 0 <= k < done.len() implies (#[trigger] done[k]).len() > 0 by {
            if line.len() > 0 {
                assert(spec_wrap_words(prefix, fits)[k] == done[k]);
            }
        }
    }
}

/// Every word found in a text has at least one character.
pub proof fn lemma_words_nonempty(text: Seq<char>)
    ensures
        spec_paragraphs(text).len() >= 1,
        forall|p: int, w: int|
            0 <= p < spec_paragraphs(text).len() && 0 <= w < spec_paragraphs(text)[p].len()
                ==> (#[trigger] spec_paragraphs(text)[p][w]).len() > 0,
        text.len() > 0 && !spec_is_whitespace(text.last()) ==> spec_paragraphs(text).last().len()
            > 0,
    decreases text.len(),
{
    if text.len() > 0 {
        lemma_words_nonempty(text.drop_last());
        let pars = spec_paragraphs(text.drop_last());
        if text.len() >= 2 {
            assert(text.drop_last().last() == text[text.len() - 2]);
        }
        assert forall|p: int, w: int|
            0 <= p < spec_paragraphs(text).len() && 0 <= w < spec_paragraphs(text)[p].len()
                implies (#[trigger] spec_paragraphs(text)[p][w]).len() > 0 by {
            if p < pars.len() && w < pars[p].len() {
                assert(pars[p][w].len() > 0);
            }
        }
    }
}

/// No line of a wrapped text is empty.
pub proof fn lemma_wrap_text_lines_nonempty(text: Seq<char>, fits: spec_fn(Seq<char>) -> bool)
    ensures
        forall|k: int|
            0 <= k < spec_wrap_text(text, fits).len() ==> (#[trigger] spec_wrap_text(
                text,
                fits,
            )[k]).len() > 0,
{
    lemma_words_nonempty(text);
    lemma_paragraph_lines_nonempty(spec_paragraphs(text), fits);
}

proof fn lemma_paragraph_lines_nonempty(
    pars: Seq<Seq<Seq<char>>>,
    fits: spec_fn(Seq<char>) -> bool,
)
    requires
        forall|p: int, w: int|
            0 <= p < pars.len() && 0 <= w < pars[p].len() ==> (#[trigger] pars[p][w]).len() > 0,
    ensures
        forall|k: int|
            0 <= k < spec_wrap_paragraphs(pars, fits).len() ==> (#[trigger] spec_wrap_paragraphs(
                pars,
                fits,
            )[k]).len() > 0,
    decreases pars.len(),
{
    if pars.len() > 0 {
        let prefix = pars.drop_last();
        assert forall|p: int, w: int| 0 <= p < prefix.len() && 0 <= w < prefix[p].len() implies (
        #[trigger] prefix[p][w]).len() > 0 by {
            assert(prefix[p] == pars[p]);
        }
        lemma_paragraph_lines_nonempty(prefix, fits);
        let last = pars.last();
        assert forall|w: int| 0 <= w < last.len() implies (#[trigger] last[w]).len() > 0 by {
            assert(last[w] == pars[pars.len() - 1][w]);
        }
        lemma_wrapped_lines_nonempty(last, fits);
        let before = spec_wrap_paragraphs(prefix, fits);
        let own = spec_wrap_words(last, fits);
        assert forall|k: int| 0 <= k < spec_wrap_paragraphs(pars, fits).len() implies (
        #[trigger] spec_wrap_paragraphs(pars, fits)[k]).len() > 0 by {
            if k < before.len() {
                assert(spec_wrap_paragraphs(pars, fits)[k] == before[k]);
            } else {
                assert(spec_wrap_paragraphs(pars, fits)[k] == own[k - before.len()]);
            }
        }
    }
}

/// Lines joined into one, with a single space between two lines.
pub open spec fn spec_join(lines: Seq<Seq<char>>) -> Seq<char>
    decreases lines.len(),
{
    if lines.len() == 0 {
        seq![]
    } else if lines.len() == 1 {
        lines[0]
    } else {
        spec_join(lines.drop_last()) + " "@ + lines.last()
    }
}

/// Wrapping only breaks lines between words: the wrapped lines, joined with
/// single spaces, are the words joined with single spaces.
pub proof fn lemma_wrap_keeps_words(words: Seq<Seq<char>>, fits: spec_fn(Seq<char>) -> bool)
    requires
        forall|k: int| 0 <= k < words.len() ==> (#[trigger] words[k]).len() > 0,
    ensures
        spec_join(spec_wrap_words(words, fits)) == spec_join(words),
{
    lemma_fill_joins(words, fits);
    if words.len() > 0 {
        lemma_fill_line_nonempty(words, fits);
    }
}

proof fn lemma_fill_joins(words: Seq<Seq<char>>, fits: spec_fn(Seq<char>) -> bool)
    requires
        forall|k: int| 0 <= k < words.len() ==> (#[trigger] words[k]).len() > 0,
    ensures
        words.len() > 0 ==> spec_join(spec_fill(words, fits).0.push(spec_fill(words, fits).1))
            == spec_join(words),
        words.len() == 0 ==> spec_fill(words, fits).0.len() == 0,
    decreases words.len(),
{
    if words.len() > 0 {
        let prefix = words.drop_last();
        assert forall|k: int| 0 <= k < prefix.len() implies (#[trigger] prefix[k]).len() > 0 by {
            assert(prefix[k] == words[k]);
        }
        lemma_fill_joins(prefix, fits);
        lemma_fill_line_nonempty(prefix, fits);
        let (done, line) = spec_fill(prefix, fits);
        let word = words.last();
        if line.len() == 0 {
            assert(prefix.len() == 0);
            assert(done.push(word) =~= seq![word]);
            assert(words =~= seq![word]);
        } else if fits(line + " "@ + word) {
            let joined = line + " "@ + word;
            if done.len() == 0 {
                assert(done.push(joined) =~= seq![joined]);
                assert(done.push(line) =~= seq![line]);
            } else {
                assert(done.push(joined).drop_last() =~= done);
                assert(done.push(line).drop_last() =~= done);
                assert(spec_join(done.push(joined)) =~= spec_join(done) + " "@ + line + " "@
                    + word);
            }
            assert(words.drop_last() == prefix);
            assert(spec_join(words) == spec_join(prefix) + " "@ + word);
            assert(spec_join(done.push(joined)) =~= spec_join(done.push(line)) + " "@ + word);
        } else {
            assert(done.push(line).push(word).drop_last() =~= done.push(line));
            assert(spec_join(words) == spec_join(prefix) + " "@ + word);
        }
    }
}

} // verus!
