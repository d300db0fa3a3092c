//! The library's general properties, stated over the model and proved.
//!
//! Each public proof function here is a law of the preprocessor:
//! - a scan reports a closing signal only when it stopped at an actual
//!   `#else`/`#endif` directive, and an empty signal means the whole input
//!   was consumed — so balanced input with no stray closing directive
//!   always yields the empty top-level signal;
//! - exactly one region of a conditional contributes output, while the
//!   other is fully consumed but silent;
//! - a function-like macro call with the wrong top-level argument count
//!   always fails, however its arguments nest;
//! - characters inside string literals pass through unchanged in every
//!   scanning mode;
//! - the current-line built-in names the line of its own occurrence.

use vstd::prelude::*;
use crate::err::{err_at, ErrKindV, ErrV, Signal};
use crate::model::{
    block_comment_end, kw_else, kw_endif, kw_line, line_comment_end, spec_def_text,
    spec_expand, spec_ifndef, spec_params, spec_parse_def, spec_parse_str, spec_process,
    spec_read_arg, spec_read_args, spec_scan, spec_str_body, spec_str_chars, ScanOk, SCAN_FUEL,
};
use crate::table::{tbl_lookup, DefV, FileV};
use crate::text::{
    dec_str, ident_at, ident_end, is_ident_start_char, line_of, skip_spaces,
};

verus! {

proof fn lemma_skip_spaces_bounds(s: Seq<char>, i: int)
    requires
        i <= s.len(),
    ensures
        i <= skip_spaces(s, i) <= s.len(),
    decreases s.len() - i,
{
    if 0 <= i < s.len() && crate::text::is_space_char(s[i]) {
        lemma_skip_spaces_bounds(s, i + 1);
    }
}

proof fn lemma_ident_end_bounds(s: Seq<char>, i: int)
    requires
        i <= s.len(),
    ensures
        i <= ident_end(s, i) <= s.len(),
    decreases s.len() - i,
{
    if 0 <= i < s.len() && crate::text::is_ident_char(s[i]) {
        lemma_ident_end_bounds(s, i + 1);
    }
}

proof fn lemma_line_comment_end_bounds(s: Seq<char>, i: int)
    requires
        i <= s.len(),
    ensures
        i <= line_comment_end(s, i) <= s.len(),
    decreases s.len() - i,
{
    if 0 <= i < s.len() && s[i] != '\n' {
        lemma_line_comment_end_bounds(s, i + 1);
    }
}

proof fn lemma_block_comment_end_bounds(s: Seq<char>, i: int)
    requires
        0 <= i <= s.len(),
    ensures
        match block_comment_end(s, i) {
            Option::Some(p) => i <= p <= s.len(),
            Option::None => true,
        },
    decreases s.len() - i,
{
    if i < s.len() && !(s[i] == '*' && i + 1 < s.len() && s[i + 1] == '/') {
        lemma_block_comment_end_bounds(s, i + 1);
    }
}

proof fn lemma_str_chars_bounds(s: Seq<char>, name: Seq<char>, j: int, term: char)
    requires
        0 <= j <= s.len(),
    ensures
        match spec_str_chars(s, name, j, term) {
            Result::Ok(t) => j <= t.1 <= s.len(),
            Result::Err(_) => true,
        },
    decreases s.len() - j,
{
    if j < s.len() && s[j] != term {
        lemma_str_chars_bounds(s, name, j + 1, term);
    }
}

proof fn lemma_parse_str_bounds(s: Seq<char>, name: Seq<char>, i: int, term: char)
    requires
        0 <= i <= s.len(),
    ensures
        match spec_parse_str(s, name, i, term) {
            Result::Ok(t) => i <= t.1 <= s.len(),
            Result::Err(_) => true,
        },
{
    if i < s.len() {
        lemma_str_chars_bounds(s, name, i + 1, term);
    }
}

/// The body of a string literal is copied verbatim: what the copier hands
/// back is exactly the characters of the source from the position after the
/// opening quote through the closing quote.
pub proof fn lemma_str_body_verbatim(s: Seq<char>, name: Seq<char>, i: int)
    requires
        0 <= i <= s.len(),
    ensures
        match spec_str_body(s, name, i) {
            Result::Ok(t) => i <= t.1 <= s.len() && t.0 == s.subrange(i, t.1),
            Result::Err(_) => true,
        },
    decreases s.len() - i,
{
    if i < s.len() {
        if s[i] == '"' {
            assert(seq!['"'] =~= s.subrange(i, i + 1));
        } else if s[i] == '\\' {
            if i + 1 < s.len() {
                lemma_str_body_verbatim(s, name, i + 2);
                match spec_str_body(s, name, i + 2) {
                    Result::Ok(t) => {
                        assert(seq![s[i], s[i + 1]] + s.subrange(i + 2, t.1) =~= s.subrange(
                            i,
                            t.1,
                        ));
                    },
                    Result::Err(_) => {},
                }
            }
        } else {
            lemma_str_body_verbatim(s, name, i + 1);
            match spec_str_body(s, name, i + 1) {
                Result::Ok(t) => {
                    assert(seq![s[i]] + s.subrange(i + 1, t.1) =~= s.subrange(i, t.1));
                },
                Result::Err(_) => {},
            }
        }
    }
}

proof fn lemma_read_arg_bounds(
    s: Seq<char>,
    name: Seq<char>,
    i: int,
    depth: int,
    in_str: bool,
    esc: bool,
)
    requires
        0 <= i <= s.len(),
    ensures
        match spec_read_arg(s, name, i, depth, in_str, esc) {
            Result::Ok(t) => i <= t.1 <= s.len(),
            Result::Err(_) => true,
        },
    decreases s.len() - i,
{
    if i < s.len() {
        let c = s[i];
        if in_str {
            let nstr: bool = if esc { true } else if c == '"' { false } else { true };
            let nesc: bool = if esc { false } else { c == '\\' };
            lemma_read_arg_bounds(s, name, i + 1, depth, nstr, nesc);
        } else if c == '"' {
            lemma_read_arg_bounds(s, name, i + 1, depth, true, false);
        } else if c == '(' {
            lemma_read_arg_bounds(s, name, i + 1, depth + 1, false, false);
        } else if (c == ')' || c == ',') && depth == 0 {
        } else {
            let ndepth: int = if c == ')' { depth - 1 } else { depth };
            lemma_read_arg_bounds(s, name, i + 1, ndepth, false, false);
        }
    }
}

proof fn lemma_read_args_bounds(s: Seq<char>, name: Seq<char>, i: int, fuel: nat)
    requires
        0 <= i <= s.len(),
    ensures
        match spec_read_args(s, name, i, fuel) {
            Result::Ok(t) => i <= t.1 <= s.len(),
            Result::Err(_) => true,
        },
    decreases fuel,
{
    if fuel > 0 && i < s.len() {
        let p1 = skip_spaces(s, i);
        lemma_skip_spaces_bounds(s, i);
        if !(p1 < s.len() && s[p1] == ')') {
            lemma_read_arg_bounds(s, name, p1, 0, false, false);
            match spec_read_arg(s, name, p1, 0, false, false) {
                Result::Ok((arg, p2)) => {
                    let p3 = skip_spaces(s, p2);
                    lemma_skip_spaces_bounds(s, p2);
                    if p3 < s.len() && s[p3] == ')' {
                    } else if p3 < s.len() && s[p3] == ',' {
                        lemma_read_args_bounds(s, name, p3 + 1, (fuel - 1) as nat);
                    }
                },
                Result::Err(_) => {},
            }
        }
    }
}

proof fn lemma_def_text_bounds(s: Seq<char>, name: Seq<char>, i: int, in_cont: bool)
    requires
        0 <= i <= s.len(),
    ensures
        match spec_def_text(s, name, i, in_cont) {
            Result::Ok(t) => i <= t.1 <= s.len(),
            Result::Err(_) => true,
        },
    decreases s.len() - i,
{
    if i < s.len() {
        if in_cont {
            if s[i] == ' ' || s[i] == '\r' {
                lemma_def_text_bounds(s, name, i + 1, true);
            } else if s[i] == '\n' {
                lemma_def_text_bounds(s, name, i + 1, false);
            }
        } else {
            if s[i] == '\n' {
            } else if s[i] == '\\' {
                lemma_def_text_bounds(s, name, i + 1, true);
            } else {
                lemma_def_text_bounds(s, name, i + 1, false);
            }
        }
    }
}

proof fn lemma_params_bounds(s: Seq<char>, name: Seq<char>, i: int, fuel: nat)
    requires
        0 <= i <= s.len(),
    ensures
        match spec_params(s, name, i, fuel) {
            Result::Ok(t) => i <= t.1 <= s.len(),
            Result::Err(_) => true,
        },
    decreases fuel,
{
    if fuel > 0 {
        let p1 = skip_spaces(s, i);
        lemma_skip_spaces_bounds(s, i);
        if p1 < s.len() && s[p1] == ')' {
        } else if p1 < s.len() && is_ident_start_char(s[p1]) {
            let pend = ident_end(s, p1);
            lemma_ident_end_bounds(s, p1);
            let p2 = skip_spaces(s, pend);
            lemma_skip_spaces_bounds(s, pend);
            if p2 < s.len() && s[p2] == ',' {
                lemma_params_bounds(s, name, p2 + 1, (fuel - 1) as nat);
            }
        }
    }
}

proof fn lemma_parse_def_bounds(s: Seq<char>, name: Seq<char>, pos: int, fuel: nat)
    requires
        0 <= pos <= s.len(),
    ensures
        match spec_parse_def(s, name, pos, fuel) {
            Result::Ok(t) => pos <= t.1 <= s.len(),
            Result::Err(_) => true,
        },
{
    if pos < s.len() && is_ident_start_char(s[pos]) {
        let nend = ident_end(s, pos);
        lemma_ident_end_bounds(s, pos);
        let p1 = skip_spaces(s, nend);
        lemma_skip_spaces_bounds(s, nend);
        if p1 < s.len() && s[p1] == '(' {
            lemma_params_bounds(s, name, p1 + 1, fuel);
            match spec_params(s, name, p1 + 1, fuel) {
                Result::Ok((ps, p2)) => {
                    lemma_def_text_bounds(s, name, p2, false);
                },
                Result::Err(_) => {},
            }
        } else {
            lemma_def_text_bounds(s, name, p1, false);
        }
    }
}

/// A scan whose signal is `sig` stopped at a `#else` or `#endif` directive
/// at some position `j` of its own region, leaving the position just past
/// that directive's word and trailing blanks.
pub open spec fn stops_at_closer(s: Seq<char>, pos: int, r: ScanOk) -> bool {
    exists|j: int|
        pos <= j && j + 1 < s.len() && s[j] == '#' && #[trigger] ident_at(s, j + 1) == (
        if r.sig == Signal::Else {
            kw_else()
        } else {
            kw_endif()
        }) && r.pos == skip_spaces(s, ident_end(s, j + 1))
}

proof fn lemma_closer_weaken(s: Seq<char>, pos: int, p2: int, r: ScanOk)
    requires
        pos <= p2,
        stops_at_closer(s, p2, r),
    ensures
        stops_at_closer(s, pos, r),
{
    let j = choose|j: int|
        p2 <= j && j + 1 < s.len() && s[j] == '#' && #[trigger] ident_at(s, j + 1) == (
        if r.sig == Signal::Else {
            kw_else()
        } else {
            kw_endif()
        }) && r.pos == skip_spaces(s, ident_end(s, j + 1));
    assert(pos <= j && j + 1 < s.len() && s[j] == '#' && ident_at(s, j + 1) == (
    if r.sig == Signal::Else {
        kw_else()
    } else {
        kw_endif()
    }) && r.pos == skip_spaces(s, ident_end(s, j + 1)));
}

/// The expander moves the scan position forward within bounds and never
/// surfaces a closing signal of its own.
pub proof fn lemma_expand_shape(
    s: Seq<char>,
    name: Seq<char>,
    pos: int,
    defs: Seq<DefV>,
    files: Seq<FileV>,
    emit: bool,
    d: DefV,
    fuel: nat,
)
    requires
        0 <= pos <= s.len(),
    ensures
        match spec_expand(s, name, pos, defs, files, emit, d, fuel) {
            Result::Ok(r) => pos <= r.pos <= s.len() && r.sig == Signal::Empty,
            Result::Err(_) => true,
        },
    decreases fuel, 2int,
{
    if fuel > 0 {
        match d.params {
            Option::None => {},
            Option::Some(ps) => {
                if pos < s.len() && s[pos] == '(' {
                    lemma_read_args_bounds(s, name, pos + 1, fuel);
                }
            },
        }
    }
}

/// The conditional handler consumes from its entry forward, stays within
/// the input, and always returns the empty signal itself.
pub proof fn lemma_ifndef_shape(
    s: Seq<char>,
    name: Seq<char>,
    pos: int,
    defs: Seq<DefV>,
    files: Seq<FileV>,
    emit: bool,
    fuel: nat,
)
    requires
        0 <= pos <= s.len(),
    ensures
        match spec_ifndef(s, name, pos, defs, files, emit, fuel) {
            Result::Ok(r) => pos <= r.pos <= s.len() && r.sig == Signal::Empty,
            Result::Err(_) => true,
        },
    decreases fuel, 2int,
{
    if fuel > 0 && pos < s.len() && is_ident_start_char(s[pos]) {
        let iend = ident_end(s, pos);
        lemma_ident_end_bounds(s, pos);
        let tested = s.subrange(pos, iend);
        let taken = tbl_lookup(defs, tested) is None;
        let first_emit = if taken { emit } else { false };
        lemma_scan_shape(s, name, iend, defs, files, first_emit, (fuel - 1) as nat);
        match spec_scan(s, name, iend, defs, files, first_emit, (fuel - 1) as nat) {
            Result::Ok(r1) => {
                if r1.sig == Signal::Else {
                    let second_emit = if taken { false } else { emit };
                    lemma_scan_shape(s, name, r1.pos, r1.defs, files, second_emit, (fuel - 1) as nat);
                }
            },
            Result::Err(_) => {},
        }
    }
}

/// The shape of every successful scan: the position only moves forward and
/// stays within the input; the empty signal means the whole input was
/// consumed; and a non-empty signal arises only from an actual `#else` or
/// `#endif` directive at which the scan stopped. Balanced input with no
/// stray closing directive therefore always ends with the empty signal.
pub proof fn lemma_scan_shape(
    s: Seq<char>,
    name: Seq<char>,
    pos: int,
    defs: Seq<DefV>,
    files: Seq<FileV>,
    emit: bool,
    fuel: nat,
)
    requires
        0 <= pos <= s.len(),
    ensures
        match spec_scan(s, name, pos, defs, files, emit, fuel) {
            Result::Ok(r) => pos <= r.pos <= s.len() && (r.sig == Signal::Empty ==> r.pos
                == s.len()) && (r.sig != Signal::Empty ==> stops_at_closer(s, pos, r)),
            Result::Err(_) => true,
        },
    decreases fuel, 3int,
{
    if pos >= s.len() || fuel == 0 {
    } else if s[pos] == '#' && pos + 1 < s.len() && is_ident_start_char(s[pos + 1]) {
        let dstart = pos + 1;
        let dend = ident_end(s, dstart);
        lemma_ident_end_bounds(s, dstart);
        let word = s.subrange(dstart, dend);
        let p2 = skip_spaces(s, dend);
        lemma_skip_spaces_bounds(s, dend);
        if word == crate::model::kw_ifndef() {
            lemma_ifndef_shape(s, name, p2, defs, files, emit, fuel);
            match spec_ifndef(s, name, p2, defs, files, emit, fuel) {
                Result::Ok(r1) => {
                    lemma_continue(s, name, pos, r1.pos, r1.defs, files, emit, fuel);
                },
                Result::Err(_) => {},
            }
        } else if word == kw_else() || word == kw_endif() {
            match spec_scan(s, name, pos, defs, files, emit, fuel) {
                Result::Ok(r) => {
                    assert(pos <= pos && pos + 1 < s.len() && s[pos] == '#' && ident_at(
                        s,
                        pos + 1,
                    ) == (if r.sig == Signal::Else {
                        kw_else()
                    } else {
                        kw_endif()
                    }) && r.pos == skip_spaces(s, ident_end(s, pos + 1)));
                },
                Result::Err(_) => {},
            }
        } else if emit && word == crate::model::kw_inc() {
            let angled = p2 < s.len() && s[p2] == '<';
            let term = if angled { '>' } else { '"' };
            lemma_parse_str_bounds(s, name, p2, term);
            match spec_parse_str(s, name, p2, term) {
                Result::Ok((fname, p3)) => {
                    let path = if angled { crate::model::inc_root() + fname } else { fname };
                    match crate::table::file_text(files, path) {
                        Option::None => {},
                        Option::Some(ftext) => {
                            match spec_scan(ftext, path, 0, defs, files, true, (fuel - 1) as nat) {
                                Result::Ok(r1) => {
                                    if r1.sig == Signal::Empty {
                                        lemma_continue(
                                            s,
                                            name,
                                            pos,
                                            p3,
                                            r1.defs,
                                            files,
                                            emit,
                                            fuel,
                                        );
                                    }
                                },
                                Result::Err(_) => {},
                            }
                        },
                    }
                },
                Result::Err(_) => {},
            }
        } else if emit && word == crate::model::kw_define() {
            lemma_parse_def_bounds(s, name, p2, fuel);
            match spec_parse_def(s, name, p2, fuel) {
                Result::Ok((d, p3)) => {
                    lemma_continue(s, name, pos, p3, crate::table::tbl_insert(defs, d), files, emit, fuel);
                },
                Result::Err(_) => {},
            }
        } else if emit && word == crate::model::kw_undef() {
            if p2 < s.len() && is_ident_start_char(s[p2]) {
                let uend = ident_end(s, p2);
                lemma_ident_end_bounds(s, p2);
                lemma_continue(
                    s,
                    name,
                    pos,
                    uend,
                    crate::table::tbl_remove(defs, s.subrange(p2, uend)),
                    files,
                    emit,
                    fuel,
                );
            }
        } else if emit {
        } else {
            lemma_continue(s, name, pos, p2, defs, files, emit, fuel);
        }
    } else if s[pos] == '/' && pos + 1 < s.len() && s[pos + 1] == '/' {
        lemma_line_comment_end_bounds(s, pos + 2);
        lemma_continue(s, name, pos, line_comment_end(s, pos + 2), defs, files, emit, fuel);
    } else if s[pos] == '/' && pos + 1 < s.len() && s[pos + 1] == '*' {
        lemma_block_comment_end_bounds(s, pos + 2);
        match block_comment_end(s, pos + 2) {
            Option::None => {},
            Option::Some(p2) => {
                lemma_continue(s, name, pos, p2, defs, files, emit, fuel);
            },
        }
    } else if s[pos] == '"' {
        lemma_str_body_verbatim(s, name, pos + 1);
        match spec_str_body(s, name, pos + 1) {
            Result::Ok((body, p2)) => {
                lemma_continue(s, name, pos, p2, defs, files, emit, fuel);
            },
            Result::Err(_) => {},
        }
    } else if emit && is_ident_start_char(s[pos]) {
        let iend = ident_end(s, pos);
        lemma_ident_end_bounds(s, pos);
        let id = s.subrange(pos, iend);
        match tbl_lookup(defs, id) {
            Option::Some(d) => {
                lemma_expand_shape(s, name, iend, defs, files, emit, d, fuel);
                match spec_expand(s, name, iend, defs, files, emit, d, fuel) {
                    Result::Ok(r1) => {
                        lemma_continue(s, name, pos, r1.pos, r1.defs, files, emit, fuel);
                    },
                    Result::Err(_) => {},
                }
            },
            Option::None => {
                lemma_continue(s, name, pos, iend, defs, files, emit, fuel);
            },
        }
    } else {
        lemma_continue(s, name, pos, pos + 1, defs, files, emit, fuel);
    }
}

/// Shape of the rest of a step: the continuation scan starts at `p2`, at or
/// after `pos`, with one unit of fuel spent.
proof fn lemma_continue(
    s: Seq<char>,
    name: Seq<char>,
    pos: int,
    p2: int,
    defs: Seq<DefV>,
    files: Seq<FileV>,
    emit: bool,
    fuel: nat,
)
    requires
        0 <= pos <= p2 <= s.len(),
        fuel > 0,
    ensures
        match spec_scan(s, name, p2, defs, files, emit, (fuel - 1) as nat) {
            Result::Ok(r) => pos <= r.pos <= s.len() && (r.sig == Signal::Empty ==> r.pos
                == s.len()) && (r.sig != Signal::Empty ==> stops_at_closer(s, pos, r)),
            Result::Err(_) => true,
        },
    decreases fuel, 2int,
{
    lemma_scan_shape(s, name, p2, defs, files, emit, (fuel - 1) as nat);
    match spec_scan(s, name, p2, defs, files, emit, (fuel - 1) as nat) {
        Result::Ok(r) => {
            if r.sig != Signal::Empty {
                lemma_closer_weaken(s, pos, p2, r);
            }
        },
        Result::Err(_) => {},
    }
}

/// A top-level run that succeeds saw the empty signal: every closing
/// directive of the input was matched by a conditional, and the whole
/// input was consumed.
pub proof fn lemma_top_level_signal_empty(
    s: Seq<char>,
    name: Seq<char>,
    pos: int,
    files: Seq<FileV>,
)
    requires
        0 <= pos <= s.len(),
        spec_process(s, name, pos, files) is Ok,
    ensures
        match spec_scan(s, name, pos, Seq::empty(), files, true, SCAN_FUEL as nat) {
            Result::Ok(r) => r.sig == Signal::Empty && r.pos == s.len(),
            Result::Err(_) => false,
        },
{
    lemma_scan_shape(s, name, pos, Seq::empty(), files, true, SCAN_FUEL as nat);
}

/// Exactly one region of a conditional contributes output. The region
/// selected by the test is scanned in the caller's emission mode and its
/// text is the whole result; the other region is scanned suppressed — the
/// final position lies past it — and none of its text reaches the result.
pub proof fn lemma_ifndef_one_branch(
    s: Seq<char>,
    name: Seq<char>,
    pos: int,
    defs: Seq<DefV>,
    files: Seq<FileV>,
    emit: bool,
    fuel: nat,
)
    requires
        fuel > 0,
        0 <= pos < s.len(),
        is_ident_start_char(s[pos]),
        spec_ifndef(s, name, pos, defs, files, emit, fuel) is Ok,
    ensures
        ({
            let r = spec_ifndef(s, name, pos, defs, files, emit, fuel)->Ok_0;
            let iend = ident_end(s, pos);
            let tested = s.subrange(pos, iend);
            let taken = tbl_lookup(defs, tested) is None;
            if taken {
                spec_scan(s, name, iend, defs, files, emit, (fuel - 1) as nat) is Ok && {
                    let r1 = spec_scan(s, name, iend, defs, files, emit, (fuel - 1) as nat)->Ok_0;
                    r.out == r1.out && (r1.sig == Signal::Else ==> spec_scan(
                        s,
                        name,
                        r1.pos,
                        r1.defs,
                        files,
                        false,
                        (fuel - 1) as nat,
                    ) is Ok && r.pos == spec_scan(
                        s,
                        name,
                        r1.pos,
                        r1.defs,
                        files,
                        false,
                        (fuel - 1) as nat,
                    )->Ok_0.pos) && (r1.sig != Signal::Else ==> r.pos == r1.pos)
                }
            } else {
                spec_scan(s, name, iend, defs, files, false, (fuel - 1) as nat) is Ok && {
                    let r1 = spec_scan(s, name, iend, defs, files, false, (fuel - 1) as nat)->Ok_0;
                    (r1.sig == Signal::Else ==> spec_scan(
                        s,
                        name,
                        r1.pos,
                        r1.defs,
                        files,
                        emit,
                        (fuel - 1) as nat,
                    ) is Ok && r.out == spec_scan(
                        s,
                        name,
                        r1.pos,
                        r1.defs,
                        files,
                        emit,
                        (fuel - 1) as nat,
                    )->Ok_0.out) && (r1.sig != Signal::Else ==> r.out == Seq::<char>::empty())
                }
            }
        }),
{
}

/// A function-like macro invoked with the wrong top-level argument count
/// always fails with the error naming the macro and the expected count —
/// whatever parentheses or string literals nest inside the arguments, since
/// those were already balanced by the argument reader.
pub proof fn lemma_wrong_arg_count_fails(
    s: Seq<char>,
    name: Seq<char>,
    pos: int,
    defs: Seq<DefV>,
    files: Seq<FileV>,
    emit: bool,
    d: DefV,
    fuel: nat,
    ps: Seq<Seq<char>>,
    args: Seq<Seq<char>>,
    p2: int,
)
    requires
        fuel > 0,
        0 <= pos < s.len(),
        s[pos] == '(',
        d.params == Option::Some(ps),
        spec_read_args(s, name, pos + 1, fuel) == Result::<(Seq<Seq<char>>, int), ErrV>::Ok(
            (args, p2),
        ),
        args.len() != ps.len(),
    ensures
        spec_expand(s, name, pos, defs, files, emit, d, fuel) == Result::<ScanOk, ErrV>::Err(
            err_at(s, name, p2, ErrKindV::WrongArgCount(d.name, ps.len() as int)),
        ),
{
}

/// Characters inside a string literal are never transformed: in every
/// scanning mode, when the scanner stands on an opening quote its output
/// begins with the literal exactly as it occurs in the source.
pub proof fn lemma_string_literal_verbatim(
    s: Seq<char>,
    name: Seq<char>,
    pos: int,
    defs: Seq<DefV>,
    files: Seq<FileV>,
    emit: bool,
    fuel: nat,
)
    requires
        fuel > 0,
        0 <= pos < s.len(),
        s[pos] == '"',
        spec_scan(s, name, pos, defs, files, emit, fuel) is Ok,
    ensures
        spec_str_body(s, name, pos + 1) is Ok,
        ({
            let r = spec_scan(s, name, pos, defs, files, emit, fuel)->Ok_0;
            let p = spec_str_body(s, name, pos + 1)->Ok_0.1;
            pos < p <= s.len() && r.out.len() >= p - pos && r.out.subrange(0, p - pos)
                == s.subrange(pos, p)
        }),
{
    lemma_str_body_verbatim(s, name, pos + 1);
    match spec_str_body(s, name, pos + 1) {
        Result::Ok((body, p)) => {
            match spec_scan(s, name, p, defs, files, emit, (fuel - 1) as nat) {
                Result::Ok(rest) => {
                    let r = spec_scan(s, name, pos, defs, files, emit, fuel)->Ok_0;
                    assert(r.out == (seq!['"'] + body) + rest.out);
                    assert(r.out.subrange(0, p - pos) =~= seq!['"'] + body);
                    assert(seq!['"'] + body =~= s.subrange(pos, p));
                },
                Result::Err(_) => {},
            }
        },
        Result::Err(_) => {},
    }
}

proof fn lemma_line_of_positive(s: Seq<char>, i: int)
    ensures
        line_of(s, i) >= 1,
    decreases i,
{
    if i > 0 {
        lemma_line_of_positive(s, i - 1);
    }
}

/// The current-line built-in reflects the line of its own occurrence: the
/// emitted digits are computed from the scan position in the text being
/// scanned, and from nothing else — in particular not from any enclosing
/// definition site recorded in the table.
pub proof fn lemma_line_builtin_is_local(
    s: Seq<char>,
    name: Seq<char>,
    pos: int,
    defs: Seq<DefV>,
    files: Seq<FileV>,
    fuel: nat,
)
    requires
        fuel > 0,
        0 <= pos < s.len(),
        is_ident_start_char(s[pos]),
        ident_at(s, pos) == kw_line(),
        tbl_lookup(defs, kw_line()) is None,
        spec_scan(s, name, pos, defs, files, true, fuel) is Ok,
    ensures
        ({
            let r = spec_scan(s, name, pos, defs, files, true, fuel)->Ok_0;
            let digits = dec_str(line_of(s, pos) as nat);
            r.out.len() >= digits.len() && r.out.subrange(0, digits.len() as int) == digits
        }),
{
    lemma_line_of_positive(s, pos);
    let iend = ident_end(s, pos);
    let digits = dec_str(line_of(s, pos) as nat);
    match spec_scan(s, name, iend, defs, files, true, (fuel - 1) as nat) {
        Result::Ok(rest) => {
            let r = spec_scan(s, name, pos, defs, files, true, fuel)->Ok_0;
            assert(r.out == digits + rest.out);
            assert(r.out.subrange(0, digits.len() as int) =~= digits);
        },
        Result::Err(_) => {},
    }
}

} // verus!
