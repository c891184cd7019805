//! The assembler: source text to token lines, then two passes over those
//! lines, one for the labels and one for the instructions.

use vstd::prelude::*;
use crate::error::{Error, Fault};
use crate::label::LabelTable;
use crate::opcode::{Instr, Opcode, decode_line, decoded};
use crate::text::{all_white_space, blank, chars_of, is_white_space, slice_chars, string_of, white_space};

verus! {

/// The lines of `s` read so far, and the line being read (without its
/// line feed).
pub open spec fn line_scan(s: Seq<char>) -> (Seq<Seq<char>>, Seq<char>)
    decreases s.len(),
{
    if s.len() == 0 {
        (seq![], seq![])
    } else {
        let (done, cur) = line_scan(s.drop_last());
        if s.last() == '\n' {
            (done.push(cur), seq![])
        } else {
            (done, cur.push(s.last()))
        }
    }
}

/// The lines of `s`, split at each line feed.
pub open spec fn source_lines(s: Seq<char>) -> Seq<Seq<char>> {
    line_scan(s).0.push(line_scan(s).1)
}

/// `l` up to its first `#`.
pub open spec fn strip_comment(l: Seq<char>) -> Seq<char>
    decreases l.len(),
{
    if l.len() == 0 {
        l
    } else if l[0] == '#' {
        seq![]
    } else {
        seq![l[0]] + strip_comment(l.drop_first())
    }
}

/// `toks` with the word `w` added: nothing for an empty word; the word
/// without its colon, then `:`, for a word that ends in a colon.
pub open spec fn close_word(toks: Seq<Seq<char>>, w: Seq<char>) -> Seq<Seq<char>> {
    if w.len() == 0 {
        toks
    } else if w.last() == ':' {
        toks.push(w.drop_last()).push(seq![':'])
    } else {
        toks.push(w)
    }
}

/// The tokens of the words of `s` read so far, and the word being read.
pub open spec fn token_scan(s: Seq<char>) -> (Seq<Seq<char>>, Seq<char>)
    decreases s.len(),
{
    if s.len() == 0 {
        (seq![], seq![])
    } else {
        let (toks, w) = token_scan(s.drop_last());
        if white_space(s.last()) {
            (close_word(toks, w), seq![])
        } else {
            (toks, w.push(s.last()))
        }
    }
}

/// The tokens of a line: its words, split at white space, where a word
/// that ends in `:` gives two tokens, the word without the colon and `:`.
pub open spec fn line_tokens(s: Seq<char>) -> Seq<Seq<char>> {
    close_word(token_scan(s).0, token_scan(s).1)
}

/// The token lines of `lines`: each line cut at its first `#`, blank lines
/// left out.
pub open spec fn token_lines(lines: Seq<Seq<char>>) -> Seq<Seq<Seq<char>>>
    decreases lines.len(),
{
    if lines.len() == 0 {
        seq![]
    } else {
        let prev = token_lines(lines.drop_last());
        let l = strip_comment(lines.last());
        if blank(l) {
            prev
        } else {
            prev.push(line_tokens(l))
        }
    }
}

/// The token lines of a source text.
pub open spec fn tokenize(text: Seq<char>) -> Seq<Seq<Seq<char>>> {
    token_lines(source_lines(text))
}

proof fn lemma_strip_comment(l: Seq<char>, k: int)
    requires
        0 <= k <= l.len(),
        forall|j: int| 0 <= j < k ==> l[j] != '#',
        k == l.len() || l[k] == '#',
    ensures
        strip_comment(l) == l.take(k),
    decreases k,
{
    if k == 0 {
        assert(l.take(0) =~= seq![]);
        if l.len() == 0 {
            assert(l =~= seq![]);
        }
    } else {
        let t = l.drop_first();
        assert forall|j: int| 0 <= j < k - 1 implies t[j] != '#' by {
            assert(t[j] == l[j + 1]);
        }
        lemma_strip_comment(t, k - 1);
        assert(seq![l[0]] + t.take(k - 1) =~= l.take(k));
    }
}

fn push_token(toks: &mut Vec<String>, w: &Vec<char>)
    ensures
        final(toks).deep_view() == close_word(old(toks).deep_view(), w@),
{
    let n = w.len();
    if n == 0 {
        return;
    }
    if w[n - 1] == ':' {
        let name = string_of(&slice_chars(w, 0, n - 1));
        let colon = String::from_str(":");
        proof {
            reveal_strlit(":");
        }
        toks.push(name);
        toks.push(colon);
        assert(w@.subrange(0, n - 1) =~= w@.drop_last());
        assert(colon@ =~= seq![':']);
        assert(final(toks).deep_view() =~= old(toks).deep_view().push(w@.drop_last()).push(seq![':']));
    } else {
        toks.push(string_of(w));
        assert(final(toks).deep_view() =~= old(toks).deep_view().push(w@));
    }
}

fn split_words(s: &Vec<char>) -> (r: Vec<String>)
    ensures
        r.deep_view() == line_tokens(s@),
{
    let mut toks: Vec<String> = Vec::new();
    let mut w: Vec<char> = Vec::new();
    let mut i: usize = 0;
    assert(toks.deep_view() =~= seq![]);
    while i < s.len()
        invariant
            i <= s@.len(),
            toks.deep_view() == token_scan(s@.take(i as int)).0,
            w@ == token_scan(s@.take(i as int)).1,
        decreases s@.len() - i,
    {
        let c = s[i];
        assert(s@.take(i as int + 1).drop_last() =~= s@.take(i as int));
        if is_white_space(c) {
            push_token(&mut toks, &w);
            w = Vec::new();
        } else {
            w.push(c);
        }
        i = i + 1;
    }
    assert(s@.take(i as int) =~= s@);
    push_token(&mut toks, &w);
    toks
}

fn split_line(line: &Vec<char>, ret: &mut Vec<Vec<String>>)
    ensures
        final(ret).deep_view() == if blank(strip_comment(line@)) {
            old(ret).deep_view()
        } else {
            old(ret).deep_view().push(line_tokens(strip_comment(line@)))
        },
{
    let mut k: usize = 0;
    while k < line.len() && line[k] != '#'
        invariant
            k <= line@.len(),
            forall|j: int| 0 <= j < k ==> line@[j] != '#',
        decreases line@.len() - k,
    {
        k = k + 1;
    }
    proof {
        lemma_strip_comment(line@, k as int);
    }
    let body = slice_chars(line, 0, k);
    assert(body@ =~= line@.take(k as int));
    if all_white_space(&body) {
        return;
    }
    let toks = split_words(&body);
    ret.push(toks);
    assert(final(ret).deep_view() =~= old(ret).deep_view().push(line_tokens(strip_comment(line@))));
}

/// Splits source text into token lines: each line is cut at its first `#`,
/// blank lines are dropped, and the rest is split at white space, with a
/// trailing `:` of a word made a token of its own.
pub fn split_code(code: &str) -> (r: Vec<Vec<String>>)
    ensures
        r.deep_view() == tokenize(code@),
{
    let cs = chars_of(code);
    let mut ret: Vec<Vec<String>> = Vec::new();
    let mut line: Vec<char> = Vec::new();
    let mut i: usize = 0;
    assert(ret.deep_view() =~= seq![]);
    while i < cs.len()
        invariant
            i <= cs@.len(),
            ret.deep_view() == token_lines(line_scan(cs@.take(i as int)).0),
            line@ == line_scan(cs@.take(i as int)).1,
        decreases cs@.len() - i,
    {
        let c = cs[i];
        assert(cs@.take(i as int + 1).drop_last() =~= cs@.take(i as int));
        if c == '\n' {
            split_line(&line, &mut ret);
            line = Vec::new();
            proof {
                let done = line_scan(cs@.take(i as int)).0;
                assert(done.push(line_scan(cs@.take(i as int)).1).drop_last() =~= done);
            }
        } else {
            line.push(c);
        }
        i = i + 1;
    }
    assert(cs@.take(i as int) =~= cs@);
    split_line(&line, &mut ret);
    proof {
        let done = line_scan(cs@).0;
        assert(done.push(line_scan(cs@).1).drop_last() =~= done);
    }
    ret
}


/// A line that is blank once its comment is cut off adds no token line,
/// wherever it stands among the source lines.
pub proof fn lemma_blank_line_adds_nothing(pre: Seq<Seq<char>>, l: Seq<char>, post: Seq<Seq<char>>)
    requires
        blank(strip_comment(l)),
    ensures
        token_lines(pre.push(l) + post) == token_lines(pre + post),
    decreases post.len(),
{
    if post.len() == 0 {
        assert(pre.push(l) + post =~= pre.push(l));
        assert(pre + post =~= pre);
        assert(pre.push(l).drop_last() =~= pre);
    } else {
        lemma_blank_line_adds_nothing(pre, l, post.drop_last());
        assert((pre.push(l) + post).drop_last() =~= pre.push(l) + post.drop_last());
        assert((pre + post).drop_last() =~= pre + post.drop_last());
    }
}

/// A line that defines a label: at least two tokens, the second one `:`.
pub open spec fn is_label_def(l: Seq<Seq<char>>) -> bool {
    l.len() >= 2 && l[1] == seq![':']
}

/// The number of instruction lines (lines that define no label) of `code`.
pub open spec fn inst_count(code: Seq<Seq<Seq<char>>>) -> nat
    decreases code.len(),
{
    if code.len() == 0 {
        0
    } else {
        inst_count(code.drop_last()) + if is_label_def(code.last()) {
            0nat
        } else {
            1nat
        }
    }
}

/// The labels that `code` defines, each with the address of the next
/// instruction after it; a label defined twice keeps the later address.
pub open spec fn labels_of(code: Seq<Seq<Seq<char>>>) -> Map<Seq<char>, nat>
    decreases code.len(),
{
    if code.len() == 0 {
        Map::empty()
    } else {
        let prev = labels_of(code.drop_last());
        if is_label_def(code.last()) {
            prev.insert(code.last()[0], inst_count(code.drop_last()))
        } else {
            prev
        }
    }
}

/// The instructions of `code`, in order, label lines skipped; or the error
/// of the first line that does not decode.
pub open spec fn decode_lines(code: Seq<Seq<Seq<char>>>) -> Result<Seq<Instr>, Fault>
    decreases code.len(),
{
    if code.len() == 0 {
        Ok(seq![])
    } else {
        match decode_lines(code.drop_last()) {
            Err(f) => Err(f),
            Ok(p) => if is_label_def(code.last()) {
                Ok(p)
            } else {
                match decode_line(code.last()) {
                    Err(f) => Err(f),
                    Ok(i) => Ok(p.push(i)),
                }
            },
        }
    }
}

/// The instructions that a sequence of opcodes holds.
pub open spec fn instrs(v: Seq<Opcode>) -> Seq<Instr> {
    v.map_values(|o: Opcode| o@)
}

fn is_label_line(line: &Vec<String>) -> (r: bool)
    ensures
        r == is_label_def(line.deep_view()),
{
    if line.len() < 2 {
        return false;
    }
    let colon = String::from_str(":");
    proof {
        reveal_strlit(":");
        assert(colon@ =~= seq![':']);
        assert(line.deep_view()[1] == line@[1]@);
    }
    line[1].eq(&colon)
}

/// The first pass: fills `label_table` with the labels that `code` defines.
pub fn load_label(code: &Vec<Vec<String>>, label_table: &mut LabelTable)
    requires
        old(label_table).wf(),
    ensures
        final(label_table).wf(),
        final(label_table)@ == labels_of(code.deep_view()),
{
    label_table.clear();
    let ghost lines = code.deep_view();
    let mut line_num: usize = 0;
    let mut i: usize = 0;
    while i < code.len()
        invariant
            label_table.wf(),
            lines == code.deep_view(),
            i <= code@.len(),
            line_num <= i,
            line_num == inst_count(lines.take(i as int)),
            label_table@ == labels_of(lines.take(i as int)),
        decreases code@.len() - i,
    {
        let line = &code[i];
        assert(lines.take(i as int + 1).drop_last() =~= lines.take(i as int));
        assert(lines.take(i as int + 1).last() == line.deep_view());
        if is_label_line(line) {
            assert(line.deep_view()[0] == line@[0]@);
            label_table.insert(line[0].clone(), line_num);
        } else {
            line_num = line_num + 1;
        }
        i = i + 1;
    }
    assert(lines.take(i as int) =~= lines);
}

proof fn lemma_decode_error_stays(code: Seq<Seq<Seq<char>>>, i: int)
    requires
        0 <= i <= code.len(),
        decode_lines(code.take(i)) is Err,
    ensures
        decode_lines(code) == decode_lines(code.take(i)),
    decreases code.len() - i,
{
    if i < code.len() {
        assert(code.drop_last().take(i) =~= code.take(i));
        lemma_decode_error_stays(code.drop_last(), i);
    } else {
        assert(code.take(i) =~= code);
    }
}

/// The second pass: fills `inst_memory` with the instructions of `code`, in
/// order. On an error it is left empty.
pub fn load_inst(code: &Vec<Vec<String>>, inst_memory: &mut Vec<Opcode>) -> (r: Result<(), Error>)
    ensures
        match decode_lines(code.deep_view()) {
            Ok(p) => r is Ok && instrs(final(inst_memory)@) == p,
            Err(f) => r matches Err(e) && e@ == f && final(inst_memory)@.len() == 0,
        },
{
    inst_memory.clear();
    let ghost lines = code.deep_view();
    let mut i: usize = 0;
    assert(instrs(inst_memory@) =~= seq![]);
    while i < code.len()
        invariant
            lines == code.deep_view(),
            i <= code@.len(),
            decode_lines(lines.take(i as int)) == Ok::<Seq<Instr>, Fault>(instrs(inst_memory@)),
        decreases code@.len() - i,
    {
        let line = &code[i];
        assert(lines.take(i as int + 1).drop_last() =~= lines.take(i as int));
        assert(lines.take(i as int + 1).last() == line.deep_view());
        if !is_label_line(line) {
            match Opcode::from_line(line) {
                Ok(op) => {
                    let ghost before = inst_memory@;
                    inst_memory.push(op);
                    assert(instrs(inst_memory@) =~= instrs(before).push(op@));
                },
                Err(err) => {
                    proof {
                        lemma_decode_error_stays(lines, i as int + 1);
                    }
                    inst_memory.clear();
                    return Err(err);
                },
            }
        }
        i = i + 1;
    }
    assert(lines.take(i as int) =~= lines);
    Ok(())
}

} // verus!
