//! The executable scanner, proved equal to the model.
//!
//! Every function here returns exactly what the corresponding specification
//! function in `model` says, including the error and its location.

use vstd::prelude::*;
use crate::err::{build_err, ErrKind, PError, Signal};
use crate::model::{
    block_comment_end, kw_define, kw_else, kw_endif, kw_file, kw_ifndef, kw_inc, kw_line,
    kw_undef, inc_root, line_comment_end, spec_def_text, spec_expand, spec_ifndef,
    spec_params, spec_parse_def, spec_parse_str, spec_process, spec_read_arg, spec_read_args,
    spec_scan, spec_str_body, spec_str_chars, spec_subst, ScanOk, SCAN_FUEL,
};
use crate::table::{tbl_insert, tbl_lookup, tbl_remove, Def, DefTable, DefV, Files};
use crate::text::{
    append_chars, copy_chars, eat_spaces, is_ident_start, line_at, push_dec, read_ident,
    sub_chars, trim_chars, chars_eq,
};

verus! {

fn kw_ifndef_vec() -> (v: Vec<char>)
    ensures
        v@ == kw_ifndef(),
{
    let mut v: Vec<char> = Vec::new();
    v.push('i');
    v.push('f');
    v.push('n');
    v.push('d');
    v.push('e');
    v.push('f');
    proof {
        assert(v@ =~= kw_ifndef());
    }
    v
}

fn kw_else_vec() -> (v: Vec<char>)
    ensures
        v@ == kw_else(),
{
    let mut v: Vec<char> = Vec::new();
    v.push('e');
    v.push('l');
    v.push('s');
    v.push('e');
    proof {
        assert(v@ =~= kw_else());
    }
    v
}

fn kw_endif_vec() -> (v: Vec<char>)
    ensures
        v@ == kw_endif(),
{
    let mut v: Vec<char> = Vec::new();
    v.push('e');
    v.push('n');
    v.push('d');
    v.push('i');
    v.push('f');
    proof {
        assert(v@ =~= kw_endif());
    }
    v
}

fn kw_inc_vec() -> (v: Vec<char>)
    ensures
        v@ == kw_inc(),
{
    let mut v: Vec<char> = Vec::new();
    v.push('i');
    v.push('n');
    v.push('c');
    v.push('l');
    v.push('u');
    v.push('d');
    v.push('e');
    proof {
        assert(v@ =~= kw_inc());
    }
    v
}

fn kw_define_vec() -> (v: Vec<char>)
    ensures
        v@ == kw_define(),
{
    let mut v: Vec<char> = Vec::new();
    v.push('d');
    v.push('e');
    v.push('f');
    v.push('i');
    v.push('n');
    v.push('e');
    proof {
        assert(v@ =~= kw_define());
    }
    v
}

fn kw_undef_vec() -> (v: Vec<char>)
    ensures
        v@ == kw_undef(),
{
    let mut v: Vec<char> = Vec::new();
    v.push('u');
    v.push('n');
    v.push('d');
    v.push('e');
    v.push('f');
    proof {
        assert(v@ =~= kw_undef());
    }
    v
}

fn kw_line_vec() -> (v: Vec<char>)
    ensures
        v@ == kw_line(),
{
    let mut v: Vec<char> = Vec::new();
    v.push('_');
    v.push('_');
    v.push('L');
    v.push('I');
    v.push('N');
    v.push('E');
    v.push('_');
    v.push('_');
    proof {
        assert(v@ =~= kw_line());
    }
    v
}

fn kw_file_vec() -> (v: Vec<char>)
    ensures
        v@ == kw_file(),
{
    let mut v: Vec<char> = Vec::new();
    v.push('_');
    v.push('_');
    v.push('F');
    v.push('I');
    v.push('L');
    v.push('E');
    v.push('_');
    v.push('_');
    proof {
        assert(v@ =~= kw_file());
    }
    v
}

fn inc_root_vec() -> (v: Vec<char>)
    ensures
        v@ == inc_root(),
{
    let mut v: Vec<char> = Vec::new();
    v.push('i');
    v.push('n');
    v.push('c');
    v.push('l');
    v.push('u');
    v.push('d');
    v.push('e');
    v.push('/');
    proof {
        assert(v@ =~= inc_root());
    }
    v
}

fn str_chars(s: &Vec<char>, name: &Vec<char>, j: usize, term: char) -> (r: Result<
    (Vec<char>, usize),
    PError,
>)
    requires
        j <= s.len(),
    ensures
        match r {
            Result::Ok(t) => spec_str_chars(s@, name@, j as int, term) == Result::<
                (Seq<char>, int),
                crate::err::ErrV,
            >::Ok((t.0@, t.1 as int)) && t.1 <= s.len(),
            Result::Err(e) => spec_str_chars(s@, name@, j as int, term) == Result::<
                (Seq<char>, int),
                crate::err::ErrV,
            >::Err(e@),
        },
    decreases s.len() - j,
{
    if j >= s.len() {
        Result::Err(build_err(s, name, j, ErrKind::UnterminatedString))
    } else if s[j] == term {
        let empty: Vec<char> = Vec::new();
        proof {
            assert(empty@ =~= Seq::<char>::empty());
        }
        Result::Ok((empty, j + 1))
    } else {
        match str_chars(s, name, j + 1, term) {
            Result::Ok((mut c, p)) => {
                let ghost c0 = c@;
                c.insert(0, s[j]);
                proof {
                    assert(c@ =~= seq![s@[j as int]] + c0);
                }
                Result::Ok((c, p))
            },
            Result::Err(e) => Result::Err(e),
        }
    }
}

/// Reads a delimited name: the delimiter at `i` is consumed unchecked, and
/// the characters up to `term` are returned.
fn parse_str(s: &Vec<char>, name: &Vec<char>, i: usize, term: char) -> (r: Result<
    (Vec<char>, usize),
    PError,
>)
    requires
        i <= s.len(),
    ensures
        match r {
            Result::Ok(t) => spec_parse_str(s@, name@, i as int, term) == Result::<
                (Seq<char>, int),
                crate::err::ErrV,
            >::Ok((t.0@, t.1 as int)) && t.1 <= s.len(),
            Result::Err(e) => spec_parse_str(s@, name@, i as int, term) == Result::<
                (Seq<char>, int),
                crate::err::ErrV,
            >::Err(e@),
        },
{
    if i >= s.len() {
        Result::Err(build_err(s, name, i, ErrKind::UnterminatedString))
    } else {
        str_chars(s, name, i + 1, term)
    }
}

/// Copies the body of a string literal, opening quote already consumed,
/// verbatim through the closing quote.
fn copy_str_body(s: &Vec<char>, name: &Vec<char>, i: usize) -> (r: Result<
    (Vec<char>, usize),
    PError,
>)
    requires
        i <= s.len(),
    ensures
        match r {
            Result::Ok(t) => spec_str_body(s@, name@, i as int) == Result::<
                (Seq<char>, int),
                crate::err::ErrV,
            >::Ok((t.0@, t.1 as int)) && t.1 <= s.len(),
            Result::Err(e) => spec_str_body(s@, name@, i as int) == Result::<
                (Seq<char>, int),
                crate::err::ErrV,
            >::Err(e@),
        },
    decreases s.len() - i,
{
    if i >= s.len() {
        Result::Err(build_err(s, name, i, ErrKind::UnterminatedString))
    } else if s[i] == '"' {
        let mut v: Vec<char> = Vec::new();
        v.push('"');
        proof {
            assert(v@ =~= seq!['"']);
        }
        Result::Ok((v, i + 1))
    } else if s[i] == '\\' {
        if i + 1 >= s.len() {
            Result::Err(build_err(s, name, s.len(), ErrKind::UnterminatedString))
        } else {
            match copy_str_body(s, name, i + 2) {
                Result::Ok((mut c, p)) => {
                    let ghost c0 = c@;
                    c.insert(0, s[i + 1]);
                    c.insert(0, s[i]);
                    proof {
                        assert(c@ =~= seq![s@[i as int], s@[i as int + 1]] + c0);
                    }
                    Result::Ok((c, p))
                },
                Result::Err(e) => Result::Err(e),
            }
        }
    } else {
        match copy_str_body(s, name, i + 1) {
            Result::Ok((mut c, p)) => {
                let ghost c0 = c@;
                c.insert(0, s[i]);
                proof {
                    assert(c@ =~= seq![s@[i as int]] + c0);
                }
                Result::Ok((c, p))
            },
            Result::Err(e) => Result::Err(e),
        }
    }
}

fn skip_line_comment(s: &Vec<char>, i: usize) -> (r: usize)
    requires
        i <= s.len(),
    ensures
        r as int == line_comment_end(s@, i as int),
        i <= r <= s.len(),
    decreases s.len() - i,
{
    if i < s.len() && s[i] != '\n' {
        skip_line_comment(s, i + 1)
    } else {
        i
    }
}

fn skip_block_comment(s: &Vec<char>, i: usize) -> (r: Option<usize>)
    requires
        i <= s.len(),
    ensures
        match r {
            Option::Some(p) => block_comment_end(s@, i as int) == Option::Some(p as int) && p <= s.len(),
            Option::None => block_comment_end(s@, i as int) is None,
        },
    decreases s.len() - i,
{
    if i >= s.len() {
        Option::None
    } else if s[i] == '*' && i + 1 < s.len() && s[i + 1] == '/' {
        Option::Some(i + 2)
    } else {
        skip_block_comment(s, i + 1)
    }
}

/// Reads one macro-call argument, mirroring the model character by
/// character: commas and the closing parenthesis count only at depth zero
/// and outside string literals.
fn read_macro_arg(
    s: &Vec<char>,
    name: &Vec<char>,
    i: usize,
    depth: usize,
    in_str: bool,
    esc: bool,
) -> (r: Result<(Vec<char>, usize), PError>)
    requires
        i <= s.len(),
        depth <= i,
    ensures
        match r {
            Result::Ok(t) => spec_read_arg(s@, name@, i as int, depth as int, in_str, esc)
                == Result::<(Seq<char>, int), crate::err::ErrV>::Ok((t.0@, t.1 as int)) && t.1
                <= s.len(),
            Result::Err(e) => spec_read_arg(s@, name@, i as int, depth as int, in_str, esc)
                == Result::<(Seq<char>, int), crate::err::ErrV>::Err(e@),
        },
    decreases s.len() - i,
{
    if i >= s.len() {
        if in_str {
            Result::Err(build_err(s, name, i, ErrKind::UnterminatedString))
        } else {
            Result::Err(build_err(s, name, i, ErrKind::EofInMacroArg))
        }
    } else {
        let c = s[i];
        if in_str {
            let nstr: bool = if esc { true } else if c == '"' { false } else { true };
            let nesc: bool = if esc { false } else { c == '\\' };
            match read_macro_arg(s, name, i + 1, depth, nstr, nesc) {
                Result::Ok((mut t, p)) => {
                    let ghost t0 = t@;
                    t.insert(0, c);
                    proof {
                        assert(t@ =~= seq![s@[i as int]] + t0);
                    }
                    Result::Ok((t, p))
                },
                Result::Err(e) => Result::Err(e),
            }
        } else if c == '"' {
            match read_macro_arg(s, name, i + 1, depth, true, false) {
                Result::Ok((mut t, p)) => {
                    let ghost t0 = t@;
                    t.insert(0, c);
                    proof {
                        assert(t@ =~= seq![s@[i as int]] + t0);
                    }
                    Result::Ok((t, p))
                },
                Result::Err(e) => Result::Err(e),
            }
        } else if c == '(' {
            match read_macro_arg(s, name, i + 1, depth + 1, false, false) {
                Result::Ok((mut t, p)) => {
                    let ghost t0 = t@;
                    t.insert(0, c);
                    proof {
                        assert(t@ =~= seq![s@[i as int]] + t0);
                    }
                    Result::Ok((t, p))
                },
                Result::Err(e) => Result::Err(e),
            }
        } else if (c == ')' || c == ',') && depth == 0 {
            let empty: Vec<char> = Vec::new();
            proof {
                assert(empty@ =~= Seq::<char>::empty());
            }
            Result::Ok((empty, i))
        } else {
            let ndepth: usize = if c == ')' { depth - 1 } else { depth };
            match read_macro_arg(s, name, i + 1, ndepth, false, false) {
                Result::Ok((mut t, p)) => {
                    let ghost t0 = t@;
                    t.insert(0, c);
                    proof {
                        assert(t@ =~= seq![s@[i as int]] + t0);
                    }
                    Result::Ok((t, p))
                },
                Result::Err(e) => Result::Err(e),
            }
        }
    }
}

/// Reads the raw replacement text of a definition, joining continuations.
fn def_text(s: &Vec<char>, name: &Vec<char>, i: usize, in_cont: bool) -> (r: Result<
    (Vec<char>, usize),
    PError,
>)
    requires
        i <= s.len(),
    ensures
        match r {
            Result::Ok(t) => spec_def_text(s@, name@, i as int, in_cont) == Result::<
                (Seq<char>, int),
                crate::err::ErrV,
            >::Ok((t.0@, t.1 as int)) && t.1 <= s.len(),
            Result::Err(e) => spec_def_text(s@, name@, i as int, in_cont) == Result::<
                (Seq<char>, int),
                crate::err::ErrV,
            >::Err(e@),
        },
    decreases s.len() - i,
{
    if in_cont {
        if i >= s.len() {
            Result::Err(build_err(s, name, i, ErrKind::EofInDefine))
        } else if s[i] == ' ' || s[i] == '\r' {
            def_text(s, name, i + 1, true)
        } else if s[i] == '\n' {
            def_text(s, name, i + 1, false)
        } else {
            Result::Err(build_err(s, name, i, ErrKind::ExpectedNewline))
        }
    } else {
        if i >= s.len() || s[i] == '\n' {
            let empty: Vec<char> = Vec::new();
            proof {
                assert(empty@ =~= Seq::<char>::empty());
            }
            Result::Ok((empty, i))
        } else if s[i] == '\\' {
            def_text(s, name, i + 1, true)
        } else {
            match def_text(s, name, i + 1, false) {
                Result::Ok((mut t, p)) => {
                    let ghost t0 = t@;
                    t.insert(0, s[i]);
                    proof {
                        assert(t@ =~= seq![s@[i as int]] + t0);
                    }
                    Result::Ok((t, p))
                },
                Result::Err(e) => Result::Err(e),
            }
        }
    }
}

/// Reads the parameter list of a function-like definition, opening
/// parenthesis already consumed.
fn def_params(s: &Vec<char>, name: &Vec<char>, i: usize, fuel: u64) -> (r: Result<
    (Vec<Vec<char>>, usize),
    PError,
>)
    requires
        i <= s.len(),
    ensures
        match r {
            Result::Ok(t) => spec_params(s@, name@, i as int, fuel as nat) == Result::<
                (Seq<Seq<char>>, int),
                crate::err::ErrV,
            >::Ok((t.0@.map_values(|p: Vec<char>| p@), t.1 as int)) && t.1 <= s.len(),
            Result::Err(e) => spec_params(s@, name@, i as int, fuel as nat) == Result::<
                (Seq<Seq<char>>, int),
                crate::err::ErrV,
            >::Err(e@),
        },
    decreases fuel, 1int,
{
    if fuel == 0 {
        Result::Err(build_err(s, name, i, ErrKind::OutOfFuel))
    } else {
        let p1 = eat_spaces(s, i);
        if p1 < s.len() && s[p1] == ')' {
            let empty: Vec<Vec<char>> = Vec::new();
            proof {
                assert(empty@.map_values(|p: Vec<char>| p@) =~= Seq::<Seq<char>>::empty());
            }
            Result::Ok((empty, p1 + 1))
        } else if p1 >= s.len() {
            Result::Err(build_err(s, name, p1, ErrKind::EofInDefine))
        } else if !is_ident_start(s[p1]) {
            Result::Err(build_err(s, name, p1, ErrKind::ExpectedIdent))
        } else {
            let (param, pend) = read_ident(s, p1);
            let p2 = eat_spaces(s, pend);
            if p2 < s.len() && s[p2] == ')' {
                let mut one: Vec<Vec<char>> = Vec::new();
                one.push(param);
                proof {
                    assert(one@.map_values(|p: Vec<char>| p@) =~= seq![
                        s@.subrange(p1 as int, pend as int),
                    ]);
                }
                Result::Ok((one, p2 + 1))
            } else if p2 < s.len() && s[p2] == ',' {
                match def_params(s, name, p2 + 1, fuel - 1) {
                    Result::Ok((mut rest, p3)) => {
                        let ghost rest0 = rest@;
                        rest.insert(0, param);
                        proof {
                            assert(rest@.map_values(|p: Vec<char>| p@) =~= seq![
                                s@.subrange(p1 as int, pend as int),
                            ] + rest0.map_values(|p: Vec<char>| p@));
                        }
                        Result::Ok((rest, p3))
                    },
                    Result::Err(e) => Result::Err(e),
                }
            } else {
                Result::Err(build_err(s, name, p2, ErrKind::ExpectedComma))
            }
        }
    }
}

/// Parses one whole `#define` directive after its word.
pub fn parse_def(s: &Vec<char>, name: &Vec<char>, pos: usize, fuel: u64) -> (r: Result<
    (Def, usize),
    PError,
>)
    requires
        pos <= s.len(),
    ensures
        match r {
            Result::Ok(t) => spec_parse_def(s@, name@, pos as int, fuel as nat) == Result::<
                (DefV, int),
                crate::err::ErrV,
            >::Ok((t.0@, t.1 as int)) && t.1 <= s.len(),
            Result::Err(e) => spec_parse_def(s@, name@, pos as int, fuel as nat) == Result::<
                (DefV, int),
                crate::err::ErrV,
            >::Err(e@),
        },
    decreases fuel, 2int,
{
    if !(pos < s.len() && is_ident_start(s[pos])) {
        Result::Err(build_err(s, name, pos, ErrKind::ExpectedIdent))
    } else {
        let (dname, nend) = read_ident(s, pos);
        let p1 = eat_spaces(s, nend);
        if p1 < s.len() && s[p1] == '(' {
            match def_params(s, name, p1 + 1, fuel) {
                Result::Ok((ps, p2)) => match def_text(s, name, p2, false) {
                    Result::Ok((t, p3)) => {
                        let d = Def { name: dname, params: Option::Some(ps), text: trim_chars(&t) };
                        Result::Ok((d, p3))
                    },
                    Result::Err(e) => Result::Err(e),
                },
                Result::Err(e) => Result::Err(e),
            }
        } else {
            match def_text(s, name, p1, false) {
                Result::Ok((t, p3)) => {
                    let d = Def { name: dname, params: Option::None, text: trim_chars(&t) };
                    Result::Ok((d, p3))
                },
                Result::Err(e) => Result::Err(e),
            }
        }
    }
}

/// Reads the argument list of a macro call, opening parenthesis already
/// consumed.
fn read_args(s: &Vec<char>, name: &Vec<char>, i: usize, fuel: u64) -> (r: Result<
    (Vec<Vec<char>>, usize),
    PError,
>)
    requires
        i <= s.len(),
    ensures
        match r {
            Result::Ok(t) => spec_read_args(s@, name@, i as int, fuel as nat) == Result::<
                (Seq<Seq<char>>, int),
                crate::err::ErrV,
            >::Ok((t.0@.map_values(|a: Vec<char>| a@), t.1 as int)) && t.1 <= s.len(),
            Result::Err(e) => spec_read_args(s@, name@, i as int, fuel as nat) == Result::<
                (Seq<Seq<char>>, int),
                crate::err::ErrV,
            >::Err(e@),
        },
    decreases fuel, 1int,
{
    if fuel == 0 {
        Result::Err(build_err(s, name, i, ErrKind::OutOfFuel))
    } else if i >= s.len() {
        Result::Err(build_err(s, name, i, ErrKind::UnexpectedEof))
    } else {
        let p1 = eat_spaces(s, i);
        if p1 < s.len() && s[p1] == ')' {
            let empty: Vec<Vec<char>> = Vec::new();
            proof {
                assert(empty@.map_values(|a: Vec<char>| a@) =~= Seq::<Seq<char>>::empty());
            }
            Result::Ok((empty, p1 + 1))
        } else {
            match read_macro_arg(s, name, p1, 0, false, false) {
                Result::Ok((arg, p2)) => {
                    let ghost argv = arg@;
                    let p3 = eat_spaces(s, p2);
                    if p3 < s.len() && s[p3] == ')' {
                        let mut one: Vec<Vec<char>> = Vec::new();
                        one.push(arg);
                        proof {
                            assert(one@.map_values(|a: Vec<char>| a@) =~= seq![argv]);
                        }
                        Result::Ok((one, p3 + 1))
                    } else if p3 < s.len() && s[p3] == ',' {
                        match read_args(s, name, p3 + 1, fuel - 1) {
                            Result::Ok((mut rest, p4)) => {
                                let ghost rest0 = rest@;
                                rest.insert(0, arg);
                                proof {
                                    assert(rest@.map_values(|a: Vec<char>| a@) =~= seq![argv]
                                        + rest0.map_values(|a: Vec<char>| a@));
                                }
                                Result::Ok((rest, p4))
                            },
                            Result::Err(e) => Result::Err(e),
                        }
                    } else {
                        Result::Err(build_err(s, name, p3, ErrKind::ExpectedComma))
                    }
                },
                Result::Err(e) => Result::Err(e),
            }
        }
    }
}


/// Expands the definition `d`, whose name was consumed just before `pos`.
pub fn expand_macro(
    s: &Vec<char>,
    name: &Vec<char>,
    pos: usize,
    defs: &mut DefTable,
    files: &Files,
    emit: bool,
    d: &Def,
    fuel: u64,
) -> (r: Result<(Vec<char>, usize), PError>)
    requires
        pos <= s.len(),
    ensures
        match r {
            Result::Ok(t) => spec_expand(
                s@,
                name@,
                pos as int,
                old(defs)@,
                files@,
                emit,
                d@,
                fuel as nat,
            ) == Result::<ScanOk, crate::err::ErrV>::Ok(
                ScanOk { out: t.0@, pos: t.1 as int, defs: final(defs)@, sig: Signal::Empty },
            ) && t.1 <= s.len(),
            Result::Err(e) => spec_expand(
                s@,
                name@,
                pos as int,
                old(defs)@,
                files@,
                emit,
                d@,
                fuel as nat,
            ) == Result::<ScanOk, crate::err::ErrV>::Err(e@),
        },
    decreases fuel, 2int,
{
    if fuel == 0 {
        return Result::Err(build_err(s, name, pos, ErrKind::OutOfFuel));
    }
    match &d.params {
        Option::None => {
            match process_input_rec(&d.text, name, 0, defs, files, emit, fuel - 1) {
                Result::Ok((out, p, sig)) => {
                    if sig != Signal::Empty {
                        Result::Err(build_err(&d.text, name, p, ErrKind::UnexpectedSignal(sig)))
                    } else {
                        Result::Ok((out, pos))
                    }
                },
                Result::Err(e) => Result::Err(e),
            }
        },
        Option::Some(ps) => {
            if !(pos < s.len() && s[pos] == '(') {
                Result::Ok((copy_chars(&d.name), pos))
            } else {
                match read_args(s, name, pos + 1, fuel) {
                    Result::Ok((args, p2)) => {
                        if args.len() != ps.len() {
                            Result::Err(
                                build_err(
                                    s,
                                    name,
                                    p2,
                                    ErrKind::WrongArgCount(copy_chars(&d.name), ps.len()),
                                ),
                            )
                        } else {
                            let ghost psv = ps@.map_values(|p: Vec<char>| p@);
                            let ghost argsv = args@.map_values(|a: Vec<char>| a@);
                            let mut body = copy_chars(&d.text);
                            let mut k: usize = 0;
                            while k < ps.len()
                                invariant
                                    k <= ps.len(),
                                    ps.len() == args.len(),
                                    psv == ps@.map_values(|p: Vec<char>| p@),
                                    argsv == args@.map_values(|a: Vec<char>| a@),
                                    spec_subst(d@.text, psv, argsv, 0) == spec_subst(
                                        body@,
                                        psv,
                                        argsv,
                                        k as int,
                                    ),
                                decreases ps.len() - k,
                            {
                                body = crate::text::replace_chars(&body, &ps[k], &args[k]);
                                k = k + 1;
                            }
                            proof {
                                assert(spec_subst(body@, psv, argsv, k as int) == body@);
                            }
                            match process_input_rec(&body, name, 0, defs, files, emit, fuel - 1) {
                                Result::Ok((out, p, sig)) => {
                                    if sig != Signal::Empty {
                                        Result::Err(
                                            build_err(
                                                &body,
                                                name,
                                                p,
                                                ErrKind::UnexpectedSignal(sig),
                                            ),
                                        )
                                    } else {
                                        Result::Ok((out, p2))
                                    }
                                },
                                Result::Err(e) => Result::Err(e),
                            }
                        }
                    },
                    Result::Err(e) => Result::Err(e),
                }
            }
        },
    }
}

/// Executes the conditional, entered just after the word `ifndef` and its
/// trailing blanks.
pub fn process_ifndef(
    s: &Vec<char>,
    name: &Vec<char>,
    pos: usize,
    defs: &mut DefTable,
    files: &Files,
    emit: bool,
    fuel: u64,
) -> (r: Result<(Vec<char>, usize), PError>)
    requires
        pos <= s.len(),
    ensures
        match r {
            Result::Ok(t) => spec_ifndef(
                s@,
                name@,
                pos as int,
                old(defs)@,
                files@,
                emit,
                fuel as nat,
            ) == Result::<ScanOk, crate::err::ErrV>::Ok(
                ScanOk { out: t.0@, pos: t.1 as int, defs: final(defs)@, sig: Signal::Empty },
            ) && t.1 <= s.len(),
            Result::Err(e) => spec_ifndef(
                s@,
                name@,
                pos as int,
                old(defs)@,
                files@,
                emit,
                fuel as nat,
            ) == Result::<ScanOk, crate::err::ErrV>::Err(e@),
        },
    decreases fuel, 2int,
{
    if fuel == 0 {
        return Result::Err(build_err(s, name, pos, ErrKind::OutOfFuel));
    }
    if !(pos < s.len() && is_ident_start(s[pos])) {
        return Result::Err(build_err(s, name, pos, ErrKind::ExpectedIdent));
    }
    let (tested, iend) = read_ident(s, pos);
    let defined = match defs.get(&tested) {
        Option::Some(_) => true,
        Option::None => false,
    };
    if !defined {
        match process_input_rec(s, name, iend, defs, files, emit, fuel - 1) {
            Result::Ok((out1, p1, sig1)) => {
                if sig1 == Signal::Else {
                    match process_input_rec(s, name, p1, defs, files, false, fuel - 1) {
                        Result::Ok((_, p2, sig2)) => {
                            if sig2 == Signal::Endif {
                                Result::Ok((out1, p2))
                            } else {
                                Result::Err(build_err(s, name, p2, ErrKind::ExpectedEndif))
                            }
                        },
                        Result::Err(e) => Result::Err(e),
                    }
                } else {
                    Result::Ok((out1, p1))
                }
            },
            Result::Err(e) => Result::Err(e),
        }
    } else {
        match process_input_rec(s, name, iend, defs, files, false, fuel - 1) {
            Result::Ok((_, p1, sig1)) => {
                if sig1 == Signal::Else {
                    match process_input_rec(s, name, p1, defs, files, emit, fuel - 1) {
                        Result::Ok((out2, p2, sig2)) => {
                            if sig2 == Signal::Endif {
                                Result::Ok((out2, p2))
                            } else {
                                Result::Err(build_err(s, name, p2, ErrKind::ExpectedEndif))
                            }
                        },
                        Result::Err(e) => Result::Err(e),
                    }
                } else {
                    let empty: Vec<char> = Vec::new();
                    proof {
                        assert(empty@ =~= Seq::<char>::empty());
                    }
                    Result::Ok((empty, p1))
                }
            },
            Result::Err(e) => Result::Err(e),
        }
    }
}

/// One whole scan of `s` from `pos`: the recursive heart of the
/// preprocessor, dispatching directives, comments, string literals,
/// identifiers and plain characters.
#[verifier::rlimit(100)]
#[verifier::spinoff_prover]
pub fn process_input_rec(
    s: &Vec<char>,
    name: &Vec<char>,
    pos: usize,
    defs: &mut DefTable,
    files: &Files,
    emit: bool,
    fuel: u64,
) -> (r: Result<(Vec<char>, usize, Signal), PError>)
    requires
        pos <= s.len(),
    ensures
        match r {
            Result::Ok(t) => spec_scan(
                s@,
                name@,
                pos as int,
                old(defs)@,
                files@,
                emit,
                fuel as nat,
            ) == Result::<ScanOk, crate::err::ErrV>::Ok(
                ScanOk { out: t.0@, pos: t.1 as int, defs: final(defs)@, sig: t.2 },
            ) && t.1 <= s.len(),
            Result::Err(e) => spec_scan(
                s@,
                name@,
                pos as int,
                old(defs)@,
                files@,
                emit,
                fuel as nat,
            ) == Result::<ScanOk, crate::err::ErrV>::Err(e@),
        },
    decreases fuel, 3int,
{
    if pos >= s.len() {
        let empty: Vec<char> = Vec::new();
        proof {
            assert(empty@ =~= Seq::<char>::empty());
        }
        return Result::Ok((empty, pos, Signal::Empty));
    }
    if fuel == 0 {
        return Result::Err(build_err(s, name, pos, ErrKind::OutOfFuel));
    }
    let c = s[pos];
    if c == '#' {
        let dstart = pos + 1;
        if !(dstart < s.len() && is_ident_start(s[dstart])) {
            return Result::Err(build_err(s, name, dstart, ErrKind::ExpectedIdent));
        }
        let (word, dend) = read_ident(s, dstart);
        let p2 = eat_spaces(s, dend);
        if chars_eq(&word, &kw_ifndef_vec()) {
            match process_ifndef(s, name, p2, defs, files, emit, fuel) {
                Result::Ok((out1, p3)) => {
                    match process_input_rec(s, name, p3, defs, files, emit, fuel - 1) {
                        Result::Ok((out2, p4, sig)) => {
                            let mut out = out1;
                            append_chars(&mut out, &out2);
                            Result::Ok((out, p4, sig))
                        },
                        Result::Err(e) => Result::Err(e),
                    }
                },
                Result::Err(e) => Result::Err(e),
            }
        } else if chars_eq(&word, &kw_else_vec()) {
            let empty: Vec<char> = Vec::new();
            proof {
                assert(empty@ =~= Seq::<char>::empty());
            }
            Result::Ok((empty, p2, Signal::Else))
        } else if chars_eq(&word, &kw_endif_vec()) {
            let empty: Vec<char> = Vec::new();
            proof {
                assert(empty@ =~= Seq::<char>::empty());
            }
            Result::Ok((empty, p2, Signal::Endif))
        } else if emit && chars_eq(&word, &kw_inc_vec()) {
            let angled = p2 < s.len() && s[p2] == '<';
            let parsed = if angled {
                parse_str(s, name, p2, '>')
            } else {
                parse_str(s, name, p2, '"')
            };
            match parsed {
                Result::Ok((fname, p3)) => {
                    let path: Vec<char> = if angled {
                        let mut root = inc_root_vec();
                        append_chars(&mut root, &fname);
                        root
                    } else {
                        fname
                    };
                    match files.get(&path) {
                        Option::None => Result::Err(
                            build_err(s, name, p3, ErrKind::FileNotFound(path)),
                        ),
                        Option::Some(ftext) => {
                            match process_input_rec(&ftext, &path, 0, defs, files, true, fuel - 1) {
                                Result::Ok((fout, fp, fsig)) => {
                                    if fsig != Signal::Empty {
                                        Result::Err(
                                            build_err(
                                                &ftext,
                                                &path,
                                                fp,
                                                ErrKind::UnexpectedSignal(fsig),
                                            ),
                                        )
                                    } else {
                                        match process_input_rec(
                                            s,
                                            name,
                                            p3,
                                            defs,
                                            files,
                                            emit,
                                            fuel - 1,
                                        ) {
                                            Result::Ok((out2, p4, sig)) => {
                                                let mut out = fout;
                                                append_chars(&mut out, &out2);
                                                Result::Ok((out, p4, sig))
                                            },
                                            Result::Err(e) => Result::Err(e),
                                        }
                                    }
                                },
                                Result::Err(e) => Result::Err(e),
                            }
                        },
                    }
                },
                Result::Err(e) => Result::Err(e),
            }
        } else if emit && chars_eq(&word, &kw_define_vec()) {
            match parse_def(s, name, p2, fuel) {
                Result::Ok((d, p3)) => {
                    defs.insert(d);
                    process_input_rec(s, name, p3, defs, files, emit, fuel - 1)
                },
                Result::Err(e) => Result::Err(e),
            }
        } else if emit && chars_eq(&word, &kw_undef_vec()) {
            if !(p2 < s.len() && is_ident_start(s[p2])) {
                Result::Err(build_err(s, name, p2, ErrKind::ExpectedIdent))
            } else {
                let (uname, uend) = read_ident(s, p2);
                defs.remove(&uname);
                process_input_rec(s, name, uend, defs, files, emit, fuel - 1)
            }
        } else if emit {
            Result::Err(build_err(s, name, p2, ErrKind::UnknownDirective(word)))
        } else {
            // A suppressed region does not validate the directive; what
            // follows the word is scanned like any other text.
            process_input_rec(s, name, p2, defs, files, emit, fuel - 1)
        }
    } else if c == '/' && pos + 1 < s.len() && s[pos + 1] == '/' {
        let p2 = skip_line_comment(s, pos + 2);
        process_input_rec(s, name, p2, defs, files, emit, fuel - 1)
    } else if c == '/' && pos + 1 < s.len() && s[pos + 1] == '*' {
        match skip_block_comment(s, pos + 2) {
            Option::None => Result::Err(build_err(s, name, s.len(), ErrKind::UnterminatedComment)),
            Option::Some(p2) => process_input_rec(s, name, p2, defs, files, emit, fuel - 1),
        }
    } else if c == '"' {
        match copy_str_body(s, name, pos + 1) {
            Result::Ok((body, p2)) => {
                match process_input_rec(s, name, p2, defs, files, emit, fuel - 1) {
                    Result::Ok((out2, p3, sig)) => {
                        let mut out: Vec<char> = Vec::new();
                        out.push('"');
                        append_chars(&mut out, &body);
                        append_chars(&mut out, &out2);
                        proof {
                            assert(out@ =~= (seq!['"'] + body@) + out2@);
                        }
                        Result::Ok((out, p3, sig))
                    },
                    Result::Err(e) => Result::Err(e),
                }
            },
            Result::Err(e) => Result::Err(e),
        }
    } else if emit && is_ident_start(c) {
        let (id, iend) = read_ident(s, pos);
        match defs.get(&id) {
            Option::Some(d) => {
                match expand_macro(s, name, iend, defs, files, emit, &d, fuel) {
                    Result::Ok((eout, ep)) => {
                        match process_input_rec(s, name, ep, defs, files, emit, fuel - 1) {
                            Result::Ok((out2, p3, sig)) => {
                                let mut out = eout;
                                append_chars(&mut out, &out2);
                                Result::Ok((out, p3, sig))
                            },
                            Result::Err(e) => Result::Err(e),
                        }
                    },
                    Result::Err(e) => Result::Err(e),
                }
            },
            Option::None => {
                let piece: Vec<char> = if chars_eq(&id, &kw_line_vec()) {
                    let n = line_at(s, pos);
                    let mut v: Vec<char> = Vec::new();
                    push_dec(n, &mut v);
                    v
                } else if chars_eq(&id, &kw_file_vec()) {
                    let mut v: Vec<char> = Vec::new();
                    v.push('"');
                    append_chars(&mut v, name);
                    v.push('"');
                    proof {
                        assert(v@ =~= seq!['"'] + name@ + seq!['"']);
                    }
                    v
                } else {
                    id
                };
                match process_input_rec(s, name, iend, defs, files, emit, fuel - 1) {
                    Result::Ok((out2, p3, sig)) => {
                        let mut out = piece;
                        append_chars(&mut out, &out2);
                        Result::Ok((out, p3, sig))
                    },
                    Result::Err(e) => Result::Err(e),
                }
            },
        }
    } else {
        match process_input_rec(s, name, pos + 1, defs, files, emit, fuel - 1) {
            Result::Ok((out2, p3, sig)) => {
                let mut out: Vec<char> = Vec::new();
                out.push(c);
                append_chars(&mut out, &out2);
                proof {
                    assert(out@ =~= seq![s@[pos as int]] + out2@);
                }
                Result::Ok((out, p3, sig))
            },
            Result::Err(e) => Result::Err(e),
        }
    }
}

/// A named character stream with a scanning position.
pub struct Input {
    pub text: Vec<char>,
    pub src_name: Vec<char>,
    pub pos: usize,
}

impl Input {
    /// The position never passes the end of the text.
    pub open spec fn wf(&self) -> bool {
        self.pos <= self.text@.len()
    }

    /// A fresh cursor over `text`, named `src_name`, at the start.
    pub fn new(text: Vec<char>, src_name: Vec<char>) -> (r: Input)
        ensures
            r.text@ == text@,
            r.src_name@ == src_name@,
            r.pos == 0,
            r.wf(),
    {
        Input { text, src_name, pos: 0 }
    }
}

/// Processes the whole input and produces the rewritten text.
///
/// The run starts with an empty definition table; `files` holds the texts
/// available to the directive that inlines another source. On success the
/// cursor stands at the end of its text; on error nothing of the output is
/// surfaced. The result is exactly `spec_process` on the cursor's text.
pub fn process_input(input: &mut Input, files: &Files) -> (r: Result<Vec<char>, PError>)
    requires
        old(input).wf(),
    ensures
        final(input).text@ == old(input).text@,
        final(input).src_name@ == old(input).src_name@,
        final(input).wf(),
        match r {
            Result::Ok(out) => spec_process(
                old(input).text@,
                old(input).src_name@,
                old(input).pos as int,
                files@,
            ) == Result::<Seq<char>, crate::err::ErrV>::Ok(out@),
            Result::Err(e) => spec_process(
                old(input).text@,
                old(input).src_name@,
                old(input).pos as int,
                files@,
            ) == Result::<Seq<char>, crate::err::ErrV>::Err(e@),
        },
{
    let mut defs = DefTable::new();
    let res = process_input_rec(
        &input.text,
        &input.src_name,
        input.pos,
        &mut defs,
        files,
        true,
        SCAN_FUEL,
    );
    match res {
        Result::Ok((out, p, sig)) => {
            if sig != Signal::Empty {
                Result::Err(build_err(&input.text, &input.src_name, p, ErrKind::UnexpectedSignal(sig)))
            } else {
                input.pos = p;
                Result::Ok(out)
            }
        },
        Result::Err(e) => Result::Err(e),
    }
}


} // verus!
