//! The mathematical model of one processing run.
//!
//! `spec_scan` defines, as a total specification-level function, what the
//! scanner produces on any input: the rewritten text, the position reached,
//! the definition table as it stands afterwards, and the control signal that
//! ended the region — or the error that aborted the run. The conditional
//! handler, the macro expander, the definition parser and the argument
//! reader each have their own specification function, and the executable
//! scanner is proved to agree with `spec_scan` exactly.
//!
//! Recursion through nested regions, nested sources and re-scanned macro
//! bodies is bounded by an explicit step budget (`fuel`); exhausting it is
//! reported as an error. Self-referential macros therefore abort instead of
//! recursing forever.

use vstd::prelude::*;
use crate::err::{err_at, ErrKindV, ErrV, Signal};
use crate::table::{file_text, tbl_insert, tbl_lookup, tbl_remove, DefV, FileV};
use crate::text::{
    dec_str, ident_end, is_ident_char, is_ident_start_char, line_of, replace_all, skip_spaces,
    trim,
};

verus! {

/// The step budget of one top-level run.
pub const SCAN_FUEL: u64 = 0xFFFF_FFFF;

/// What a completed scan produced: output text, the position just past the
/// consumed region, the definition table afterwards, and the signal that
/// ended the region.
pub struct ScanOk {
    pub out: Seq<char>,
    pub pos: int,
    pub defs: Seq<DefV>,
    pub sig: Signal,
}

/// The directive word of a conditional.
pub open spec fn kw_ifndef() -> Seq<char> {
    seq!['i', 'f', 'n', 'd', 'e', 'f']
}

pub open spec fn kw_else() -> Seq<char> {
    seq!['e', 'l', 's', 'e']
}

pub open spec fn kw_endif() -> Seq<char> {
    seq!['e', 'n', 'd', 'i', 'f']
}

/// The directive word that inlines another source file.
pub open spec fn kw_inc() -> Seq<char> {
    seq!['i', 'n', 'c', 'l', 'u', 'd', 'e']
}

pub open spec fn kw_define() -> Seq<char> {
    seq!['d', 'e', 'f', 'i', 'n', 'e']
}

pub open spec fn kw_undef() -> Seq<char> {
    seq!['u', 'n', 'd', 'e', 'f']
}

/// The built-in token that expands to the current line number.
pub open spec fn kw_line() -> Seq<char> {
    seq!['_', '_', 'L', 'I', 'N', 'E', '_', '_']
}

/// The built-in token that expands to the quoted source name.
pub open spec fn kw_file() -> Seq<char> {
    seq!['_', '_', 'F', 'I', 'L', 'E', '_', '_']
}

/// The fixed root under which angle-bracket paths are resolved.
pub open spec fn inc_root() -> Seq<char> {
    seq!['i', 'n', 'c', 'l', 'u', 'd', 'e', '/']
}

/// Prepends already-produced text to the outcome of the rest of a scan.
pub open spec fn scan_step(piece: Seq<char>, r: Result<ScanOk, ErrV>) -> Result<ScanOk, ErrV> {
    match r {
        Result::Ok(k) => Result::Ok(
            ScanOk { out: piece + k.out, pos: k.pos, defs: k.defs, sig: k.sig },
        ),
        Result::Err(e) => Result::Err(e),
    }
}

/// Characters of a delimited name: everything from `j` up to the terminator,
/// which is consumed but not returned.
pub open spec fn spec_str_chars(s: Seq<char>, name: Seq<char>, j: int, term: char) -> Result<
    (Seq<char>, int),
    ErrV,
>
    decreases s.len() - j,
{
    if j >= s.len() {
        Result::Err(err_at(s, name, j, ErrKindV::UnterminatedString))
    } else if s[j] == term {
        Result::Ok((Seq::empty(), j + 1))
    } else {
        match spec_str_chars(s, name, j + 1, term) {
            Result::Ok((c, p)) => Result::Ok((seq![s[j]] + c, p)),
            Result::Err(e) => Result::Err(e),
        }
    }
}

/// A delimited name at `i`: the delimiter itself is consumed unchecked, and
/// the characters up to `term` are returned.
pub open spec fn spec_parse_str(s: Seq<char>, name: Seq<char>, i: int, term: char) -> Result<
    (Seq<char>, int),
    ErrV,
> {
    if i >= s.len() {
        Result::Err(err_at(s, name, i, ErrKindV::UnterminatedString))
    } else {
        spec_str_chars(s, name, i + 1, term)
    }
}

/// Body of a string literal starting just after the opening quote: every
/// character through the closing quote is returned verbatim, a backslash
/// passing itself and the following character through unchanged.
pub open spec fn spec_str_body(s: Seq<char>, name: Seq<char>, i: int) -> Result<
    (Seq<char>, int),
    ErrV,
>
    decreases s.len() - i,
{
    if i >= s.len() {
        Result::Err(err_at(s, name, i, ErrKindV::UnterminatedString))
    } else if s[i] == '"' {
        Result::Ok((seq!['"'], i + 1))
    } else if s[i] == '\\' {
        if i + 1 >= s.len() {
            Result::Err(err_at(s, name, s.len() as int, ErrKindV::UnterminatedString))
        } else {
            match spec_str_body(s, name, i + 2) {
                Result::Ok((c, p)) => Result::Ok((seq![s[i], s[i + 1]] + c, p)),
                Result::Err(e) => Result::Err(e),
            }
        }
    } else {
        match spec_str_body(s, name, i + 1) {
            Result::Ok((c, p)) => Result::Ok((seq![s[i]] + c, p)),
            Result::Err(e) => Result::Err(e),
        }
    }
}

/// First position at or after `i` that holds a line break (or the end).
pub open spec fn line_comment_end(s: Seq<char>, i: int) -> int
    decreases s.len() - i,
{
    if 0 <= i < s.len() && s[i] != '\n' {
        line_comment_end(s, i + 1)
    } else {
        i
    }
}

/// Position just past the terminator of a block comment whose body starts
/// at `i`, if the comment is terminated at all.
pub open spec fn block_comment_end(s: Seq<char>, i: int) -> Option<int>
    decreases s.len() - i,
{
    if i >= s.len() {
        Option::None
    } else if s[i] == '*' && i + 1 < s.len() && s[i + 1] == '/' {
        Option::Some(i + 2)
    } else {
        block_comment_end(s, i + 1)
    }
}

/// One macro-call argument, read character by character from `i`.
///
/// The argument ends at the first comma or closing parenthesis at nesting
/// depth zero, neither consumed. Parentheses track `depth`; a string literal
/// is copied verbatim (`in_str`, with `esc` marking a pending backslash
/// escape) without affecting depth or comma detection.
pub open spec fn spec_read_arg(
    s: Seq<char>,
    name: Seq<char>,
    i: int,
    depth: int,
    in_str: bool,
    esc: bool,
) -> Result<(Seq<char>, int), ErrV>
    decreases s.len() - i,
{
    if i >= s.len() {
        Result::Err(
            err_at(
                s,
                name,
                i,
                if in_str {
                    ErrKindV::UnterminatedString
                } else {
                    ErrKindV::EofInMacroArg
                },
            ),
        )
    } else {
        let c = s[i];
        if in_str {
            let (nstr, nesc): (bool, bool) = if esc {
                (true, false)
            } else if c == '\\' {
                (true, true)
            } else if c == '"' {
                (false, false)
            } else {
                (true, false)
            };
            match spec_read_arg(s, name, i + 1, depth, nstr, nesc) {
                Result::Ok((t, p)) => Result::Ok((seq![c] + t, p)),
                Result::Err(e) => Result::Err(e),
            }
        } else if c == '"' {
            match spec_read_arg(s, name, i + 1, depth, true, false) {
                Result::Ok((t, p)) => Result::Ok((seq![c] + t, p)),
                Result::Err(e) => Result::Err(e),
            }
        } else if c == '(' {
            match spec_read_arg(s, name, i + 1, depth + 1, false, false) {
                Result::Ok((t, p)) => Result::Ok((seq![c] + t, p)),
                Result::Err(e) => Result::Err(e),
            }
        } else if c == ')' && depth == 0 {
            Result::Ok((Seq::empty(), i))
        } else if c == ',' && depth == 0 {
            Result::Ok((Seq::empty(), i))
        } else {
            let ndepth: int = if c == ')' {
                depth - 1
            } else {
                depth
            };
            match spec_read_arg(s, name, i + 1, ndepth, false, false) {
                Result::Ok((t, p)) => Result::Ok((seq![c] + t, p)),
                Result::Err(e) => Result::Err(e),
            }
        }
    }
}

/// Raw replacement text of a definition, read to the end of the line.
///
/// A backslash starts a continuation (`in_cont`): blanks and carriage
/// returns may follow, a line break resumes capture on the next line with
/// backslash and break elided, and anything else is a hard error.
pub open spec fn spec_def_text(s: Seq<char>, name: Seq<char>, i: int, in_cont: bool) -> Result<
    (Seq<char>, int),
    ErrV,
>
    decreases s.len() - i,
{
    if in_cont {
        if i >= s.len() {
            Result::Err(err_at(s, name, i, ErrKindV::EofInDefine))
        } else if s[i] == ' ' || s[i] == '\r' {
            spec_def_text(s, name, i + 1, true)
        } else if s[i] == '\n' {
            spec_def_text(s, name, i + 1, false)
        } else {
            Result::Err(err_at(s, name, i, ErrKindV::ExpectedNewline))
        }
    } else {
        if i >= s.len() {
            Result::Ok((Seq::empty(), i))
        } else if s[i] == '\n' {
            Result::Ok((Seq::empty(), i))
        } else if s[i] == '\\' {
            spec_def_text(s, name, i + 1, true)
        } else {
            match spec_def_text(s, name, i + 1, false) {
                Result::Ok((t, p)) => Result::Ok((seq![s[i]] + t, p)),
                Result::Err(e) => Result::Err(e),
            }
        }
    }
}

/// The parameter list of a function-like definition, read just after its
/// opening parenthesis: comma-separated identifiers, possibly none,
/// terminated by a closing parenthesis.
pub open spec fn spec_params(s: Seq<char>, name: Seq<char>, i: int, fuel: nat) -> Result<
    (Seq<Seq<char>>, int),
    ErrV,
>
    decreases fuel, 1int,
{
    if fuel == 0 {
        Result::Err(err_at(s, name, i, ErrKindV::OutOfFuel))
    } else {
        let p1 = skip_spaces(s, i);
        if p1 < s.len() && s[p1] == ')' {
            Result::Ok((Seq::empty(), p1 + 1))
        } else if p1 >= s.len() {
            Result::Err(err_at(s, name, p1, ErrKindV::EofInDefine))
        } else if !is_ident_start_char(s[p1]) {
            Result::Err(err_at(s, name, p1, ErrKindV::ExpectedIdent))
        } else {
            let pend = ident_end(s, p1);
            let param = s.subrange(p1, pend);
            let p2 = skip_spaces(s, pend);
            if p2 < s.len() && s[p2] == ')' {
                Result::Ok((seq![param], p2 + 1))
            } else if p2 < s.len() && s[p2] == ',' {
                match spec_params(s, name, p2 + 1, (fuel - 1) as nat) {
                    Result::Ok((rest, p3)) => Result::Ok((seq![param] + rest, p3)),
                    Result::Err(e) => Result::Err(e),
                }
            } else {
                Result::Err(err_at(s, name, p2, ErrKindV::ExpectedComma))
            }
        }
    }
}

/// A whole `#define` directive after its word: the defined name, the
/// optional parameter list (present exactly when an opening parenthesis
/// immediately follows the blanks after the name), and the trimmed raw text.
pub open spec fn spec_parse_def(s: Seq<char>, name: Seq<char>, pos: int, fuel: nat) -> Result<
    (DefV, int),
    ErrV,
>
    decreases fuel, 2int,
{
    if !(pos < s.len() && is_ident_start_char(s[pos])) {
        Result::Err(err_at(s, name, pos, ErrKindV::ExpectedIdent))
    } else {
        let nend = ident_end(s, pos);
        let dname = s.subrange(pos, nend);
        let p1 = skip_spaces(s, nend);
        if p1 < s.len() && s[p1] == '(' {
            match spec_params(s, name, p1 + 1, fuel) {
                Result::Ok((ps, p2)) => match spec_def_text(s, name, p2, false) {
                    Result::Ok((t, p3)) => Result::Ok(
                        (DefV { name: dname, params: Option::Some(ps), text: trim(t) }, p3),
                    ),
                    Result::Err(e) => Result::Err(e),
                },
                Result::Err(e) => Result::Err(e),
            }
        } else {
            match spec_def_text(s, name, p1, false) {
                Result::Ok((t, p3)) => Result::Ok(
                    (DefV { name: dname, params: Option::None, text: trim(t) }, p3),
                ),
                Result::Err(e) => Result::Err(e),
            }
        }
    }
}

/// The argument list of a macro call, read just after its opening
/// parenthesis; blanks before a separator are skipped, the characters of
/// each argument are kept as read.
pub open spec fn spec_read_args(s: Seq<char>, name: Seq<char>, i: int, fuel: nat) -> Result<
    (Seq<Seq<char>>, int),
    ErrV,
>
    decreases fuel, 1int,
{
    if fuel == 0 {
        Result::Err(err_at(s, name, i, ErrKindV::OutOfFuel))
    } else if i >= s.len() {
        Result::Err(err_at(s, name, i, ErrKindV::UnexpectedEof))
    } else {
        let p1 = skip_spaces(s, i);
        if p1 < s.len() && s[p1] == ')' {
            Result::Ok((Seq::empty(), p1 + 1))
        } else {
            match spec_read_arg(s, name, p1, 0, false, false) {
                Result::Ok((arg, p2)) => {
                    let p3 = skip_spaces(s, p2);
                    if p3 < s.len() && s[p3] == ')' {
                        Result::Ok((seq![arg], p3 + 1))
                    } else if p3 < s.len() && s[p3] == ',' {
                        match spec_read_args(s, name, p3 + 1, (fuel - 1) as nat) {
                            Result::Ok((rest, p4)) => Result::Ok((seq![arg] + rest, p4)),
                            Result::Err(e) => Result::Err(e),
                        }
                    } else {
                        Result::Err(err_at(s, name, p3, ErrKindV::ExpectedComma))
                    }
                },
                Result::Err(e) => Result::Err(e),
            }
        }
    }
}

/// The body after parameter substitution: each parameter in order is
/// replaced, as a plain substring, by the corresponding argument text.
pub open spec fn spec_subst(
    t: Seq<char>,
    ps: Seq<Seq<char>>,
    args: Seq<Seq<char>>,
    i: int,
) -> Seq<char>
    decreases ps.len() - i,
{
    if 0 <= i < ps.len() && i < args.len() {
        spec_subst(replace_all(t, ps[i], args[i]), ps, args, i + 1)
    } else {
        t
    }
}

/// Expansion of the definition `d`, whose name was just consumed at `pos`.
///
/// An object-like body, or a function-like body after substitution, is
/// re-scanned as fresh input under the same source name; the nested scan
/// must end with the empty signal. A function-like macro not immediately
/// followed by an opening parenthesis is not expanded: its bare name is the
/// output. An argument count different from the parameter count is a hard
/// error naming the macro and the expected count.
pub open spec fn spec_expand(
    s: Seq<char>,
    name: Seq<char>,
    pos: int,
    defs: Seq<DefV>,
    files: Seq<FileV>,
    emit: bool,
    d: DefV,
    fuel: nat,
) -> Result<ScanOk, ErrV>
    decreases fuel, 2int,
{
    if fuel == 0 {
        Result::Err(err_at(s, name, pos, ErrKindV::OutOfFuel))
    } else {
        match d.params {
            Option::None => match spec_scan(d.text, name, 0, defs, files, emit, (fuel - 1) as nat) {
                Result::Ok(r) => if r.sig != Signal::Empty {
                    Result::Err(err_at(d.text, name, r.pos, ErrKindV::UnexpectedSignal(r.sig)))
                } else {
                    Result::Ok(ScanOk { out: r.out, pos, defs: r.defs, sig: Signal::Empty })
                },
                Result::Err(e) => Result::Err(e),
            },
            Option::Some(ps) => {
                if !(pos < s.len() && s[pos] == '(') {
                    Result::Ok(ScanOk { out: d.name, pos, defs, sig: Signal::Empty })
                } else {
                    match spec_read_args(s, name, pos + 1, fuel) {
                        Result::Ok((args, p2)) => {
                            if args.len() != ps.len() {
                                Result::Err(
                                    err_at(
                                        s,
                                        name,
                                        p2,
                                        ErrKindV::WrongArgCount(d.name, ps.len() as int),
                                    ),
                                )
                            } else {
                                let body = spec_subst(d.text, ps, args, 0);
                                match spec_scan(
                                    body,
                                    name,
                                    0,
                                    defs,
                                    files,
                                    emit,
                                    (fuel - 1) as nat,
                                ) {
                                    Result::Ok(r) => if r.sig != Signal::Empty {
                                        Result::Err(
                                            err_at(
                                                body,
                                                name,
                                                r.pos,
                                                ErrKindV::UnexpectedSignal(r.sig),
                                            ),
                                        )
                                    } else {
                                        Result::Ok(
                                            ScanOk {
                                                out: r.out,
                                                pos: p2,
                                                defs: r.defs,
                                                sig: Signal::Empty,
                                            },
                                        )
                                    },
                                    Result::Err(e) => Result::Err(e),
                                }
                            }
                        },
                        Result::Err(e) => Result::Err(e),
                    }
                }
            },
        }
    }
}

/// The conditional handler, entered just after the word `ifndef` and its
/// trailing blanks.
///
/// The tested name is taken: absent from the table means the first region is
/// scanned with the caller's emission mode; an `#else` signal makes the
/// second region a suppressed scan that must end in `#endif`. A defined name
/// suppresses the first region and emits the second, which again must end in
/// `#endif`. Either way at most one region contributes output, and both are
/// structurally consumed.
pub open spec fn spec_ifndef(
    s: Seq<char>,
    name: Seq<char>,
    pos: int,
    defs: Seq<DefV>,
    files: Seq<FileV>,
    emit: bool,
    fuel: nat,
) -> Result<ScanOk, ErrV>
    decreases fuel, 2int,
{
    if fuel == 0 {
        Result::Err(err_at(s, name, pos, ErrKindV::OutOfFuel))
    } else if !(pos < s.len() && is_ident_start_char(s[pos])) {
        Result::Err(err_at(s, name, pos, ErrKindV::ExpectedIdent))
    } else {
        let iend = ident_end(s, pos);
        let tested = s.subrange(pos, iend);
        let taken = tbl_lookup(defs, tested) is None;
        if taken {
            match spec_scan(s, name, iend, defs, files, emit, (fuel - 1) as nat) {
                Result::Ok(r1) => if r1.sig == Signal::Else {
                    match spec_scan(s, name, r1.pos, r1.defs, files, false, (fuel - 1) as nat) {
                        Result::Ok(r2) => if r2.sig == Signal::Endif {
                            Result::Ok(
                                ScanOk {
                                    out: r1.out,
                                    pos: r2.pos,
                                    defs: r2.defs,
                                    sig: Signal::Empty,
                                },
                            )
                        } else {
                            Result::Err(err_at(s, name, r2.pos, ErrKindV::ExpectedEndif))
                        },
                        Result::Err(e) => Result::Err(e),
                    }
                } else {
                    Result::Ok(
                        ScanOk { out: r1.out, pos: r1.pos, defs: r1.defs, sig: Signal::Empty },
                    )
                },
                Result::Err(e) => Result::Err(e),
            }
        } else {
            match spec_scan(s, name, iend, defs, files, false, (fuel - 1) as nat) {
                Result::Ok(r1) => if r1.sig == Signal::Else {
                    match spec_scan(s, name, r1.pos, r1.defs, files, emit, (fuel - 1) as nat) {
                        Result::Ok(r2) => if r2.sig == Signal::Endif {
                            Result::Ok(
                                ScanOk {
                                    out: r2.out,
                                    pos: r2.pos,
                                    defs: r2.defs,
                                    sig: Signal::Empty,
                                },
                            )
                        } else {
                            Result::Err(err_at(s, name, r2.pos, ErrKindV::ExpectedEndif))
                        },
                        Result::Err(e) => Result::Err(e),
                    }
                } else {
                    Result::Ok(
                        ScanOk {
                            out: Seq::empty(),
                            pos: r1.pos,
                            defs: r1.defs,
                            sig: Signal::Empty,
                        },
                    )
                },
                Result::Err(e) => Result::Err(e),
            }
        }
    }
}

/// One whole scan of `s` from `pos`, with the table `defs`, the available
/// nested sources `files`, and the emission mode `emit`.
///
/// Per step: a directive is dispatched (a conditional in either mode; stop
/// on a closing word; inline a nested source, record or remove a definition,
/// or reject an unknown word only while emitting — in a suppressed region
/// the rest of the directive line merely falls through to plain scanning); a
/// line or block comment is discarded in either mode; a string literal is
/// copied verbatim in either mode; an identifier, only while emitting, is
/// expanded as a macro or as a built-in, or copied; any other character is
/// copied.
pub open spec fn spec_scan(
    s: Seq<char>,
    name: Seq<char>,
    pos: int,
    defs: Seq<DefV>,
    files: Seq<FileV>,
    emit: bool,
    fuel: nat,
) -> Result<ScanOk, ErrV>
    decreases fuel, 3int,
{
    if pos >= s.len() {
        Result::Ok(ScanOk { out: Seq::empty(), pos, defs, sig: Signal::Empty })
    } else if fuel == 0 {
        Result::Err(err_at(s, name, pos, ErrKindV::OutOfFuel))
    } else if s[pos] == '#' {
        let dstart = pos + 1;
        if !(dstart < s.len() && is_ident_start_char(s[dstart])) {
            Result::Err(err_at(s, name, dstart, ErrKindV::ExpectedIdent))
        } else {
            let dend = ident_end(s, dstart);
            let word = s.subrange(dstart, dend);
            let p2 = skip_spaces(s, dend);
            if word == kw_ifndef() {
                match spec_ifndef(s, name, p2, defs, files, emit, fuel) {
                    Result::Ok(r) => scan_step(
                        r.out,
                        spec_scan(s, name, r.pos, r.defs, files, emit, (fuel - 1) as nat),
                    ),
                    Result::Err(e) => Result::Err(e),
                }
            } else if word == kw_else() {
                Result::Ok(ScanOk { out: Seq::empty(), pos: p2, defs, sig: Signal::Else })
            } else if word == kw_endif() {
                Result::Ok(ScanOk { out: Seq::empty(), pos: p2, defs, sig: Signal::Endif })
            } else if emit && word == kw_inc() {
                let angled = p2 < s.len() && s[p2] == '<';
                let parsed = if angled {
                    spec_parse_str(s, name, p2, '>')
                } else {
                    spec_parse_str(s, name, p2, '"')
                };
                match parsed {
                    Result::Ok((fname, p3)) => {
                        let path = if angled {
                            inc_root() + fname
                        } else {
                            fname
                        };
                        match file_text(files, path) {
                            Option::None => Result::Err(
                                err_at(s, name, p3, ErrKindV::FileNotFound(path)),
                            ),
                            Option::Some(ftext) => match spec_scan(
                                ftext,
                                path,
                                0,
                                defs,
                                files,
                                true,
                                (fuel - 1) as nat,
                            ) {
                                Result::Ok(r) => if r.sig != Signal::Empty {
                                    Result::Err(
                                        err_at(
                                            ftext,
                                            path,
                                            r.pos,
                                            ErrKindV::UnexpectedSignal(r.sig),
                                        ),
                                    )
                                } else {
                                    scan_step(
                                        r.out,
                                        spec_scan(
                                            s,
                                            name,
                                            p3,
                                            r.defs,
                                            files,
                                            emit,
                                            (fuel - 1) as nat,
                                        ),
                                    )
                                },
                                Result::Err(e) => Result::Err(e),
                            },
                        }
                    },
                    Result::Err(e) => Result::Err(e),
                }
            } else if emit && word == kw_define() {
                match spec_parse_def(s, name, p2, fuel) {
                    Result::Ok((d, p3)) => spec_scan(
                        s,
                        name,
                        p3,
                        tbl_insert(defs, d),
                        files,
                        emit,
                        (fuel - 1) as nat,
                    ),
                    Result::Err(e) => Result::Err(e),
                }
            } else if emit && word == kw_undef() {
                if !(p2 < s.len() && is_ident_start_char(s[p2])) {
                    Result::Err(err_at(s, name, p2, ErrKindV::ExpectedIdent))
                } else {
                    let uend = ident_end(s, p2);
                    let uname = s.subrange(p2, uend);
                    spec_scan(s, name, uend, tbl_remove(defs, uname), files, emit, (fuel - 1) as nat)
                }
            } else if emit {
                Result::Err(err_at(s, name, p2, ErrKindV::UnknownDirective(word)))
            } else {
                // Suppressed region: the directive line is not validated;
                // what follows the word is scanned like any other text.
                spec_scan(s, name, p2, defs, files, emit, (fuel - 1) as nat)
            }
        }
    } else if s[pos] == '/' && pos + 1 < s.len() && s[pos + 1] == '/' {
        spec_scan(s, name, line_comment_end(s, pos + 2), defs, files, emit, (fuel - 1) as nat)
    } else if s[pos] == '/' && pos + 1 < s.len() && s[pos + 1] == '*' {
        match block_comment_end(s, pos + 2) {
            Option::None => Result::Err(
                err_at(s, name, s.len() as int, ErrKindV::UnterminatedComment),
            ),
            Option::Some(p2) => spec_scan(s, name, p2, defs, files, emit, (fuel - 1) as nat),
        }
    } else if s[pos] == '"' {
        match spec_str_body(s, name, pos + 1) {
            Result::Ok((body, p2)) => scan_step(
                seq!['"'] + body,
                spec_scan(s, name, p2, defs, files, emit, (fuel - 1) as nat),
            ),
            Result::Err(e) => Result::Err(e),
        }
    } else if emit && is_ident_start_char(s[pos]) {
        let iend = ident_end(s, pos);
        let id = s.subrange(pos, iend);
        match tbl_lookup(defs, id) {
            Option::Some(d) => match spec_expand(s, name, iend, defs, files, emit, d, fuel) {
                Result::Ok(r) => scan_step(
                    r.out,
                    spec_scan(s, name, r.pos, r.defs, files, emit, (fuel - 1) as nat),
                ),
                Result::Err(e) => Result::Err(e),
            },
            Option::None => {
                let piece = if id == kw_line() {
                    dec_str(line_of(s, pos) as nat)
                } else if id == kw_file() {
                    seq!['"'] + name + seq!['"']
                } else {
                    id
                };
                scan_step(piece, spec_scan(s, name, iend, defs, files, emit, (fuel - 1) as nat))
            },
        }
    } else {
        scan_step(
            seq![s[pos]],
            spec_scan(s, name, pos + 1, defs, files, emit, (fuel - 1) as nat),
        )
    }
}

/// A whole top-level run over `s` named `name` from `pos`: an empty starting
/// table, the full step budget, emission on, and a non-empty final signal
/// rejected as an unexpected closing directive.
pub open spec fn spec_process(s: Seq<char>, name: Seq<char>, pos: int, files: Seq<FileV>) -> Result<
    Seq<char>,
    ErrV,
> {
    match spec_scan(s, name, pos, Seq::empty(), files, true, SCAN_FUEL as nat) {
        Result::Ok(r) => if r.sig != Signal::Empty {
            Result::Err(err_at(s, name, r.pos, ErrKindV::UnexpectedSignal(r.sig)))
        } else {
            Result::Ok(r.out)
        },
        Result::Err(e) => Result::Err(e),
    }
}

} // verus!
