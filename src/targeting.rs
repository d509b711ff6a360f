//! The targeting expression language.
//!
//! An expression is a boolean predicate over the application context:
//!
//! ```text
//! or      := and ( "||" and )*
//! and     := not ( "&&" not )*
//! not     := "!" not | compare
//! compare := postfix ( ( "==" | "!=" | "<" | "<=" | ">" | ">=" | "in" ) postfix )?
//! postfix := primary ( "|" filter )*
//! filter  := "bucketSample" "(" number "," number "," number ")"
//!          | "preferenceValue" | "date"
//! primary := "(" or ")" | "[" ( primary "," )* primary? "]"
//!          | string | number | identifier
//! ```
//!
//! Strings are quoted with `'` or `"`; numbers are decimal, at most 18
//! digits. An identifier is `true`, `false`, `null`, or a field, optionally
//! written under `env.`: `appName`, `version`, `appBuild`, `architecture`,
//! `deviceManufacturer`, `deviceModel`, `locale`, `os`, `osVersion`,
//! `channel`, `userId` (the randomization identifier), `currentDate` (the
//! time source, in milliseconds since the epoch) and `activeExperiments`
//! (the active experiment slugs, a list of strings). List literals hold
//! strings. `==` and `!=` compare values of one kind, `null` with anything;
//! the ordering operators compare numbers, or strings character by
//! character; `in` tests a string's membership in a list. `!` takes a
//! boolean, or `null` as false.
//!
//! Filters: `[value, namespace]|bucketSample(start, count, total)` samples
//! as [`crate::sampling::in_bucket`] does; `'name'|preferenceValue` is the
//! host's preference of that name, or `null`; `'YYYY-MM-DD'|date` is the
//! start of that day (1970 or later) in milliseconds since the epoch.
use vstd::prelude::*;
use crate::sampling::{bucket_decision, in_bucket};

verus! {

/// Why an expression could not be evaluated.
#[derive(Clone, Copy, Debug, PartialEq, Eq, Structural)]
pub enum EvalError {
    /// The text is not an expression of the language.
    ParseError,
    /// An identifier names no field.
    UnknownField,
    /// An operator was applied to values of the wrong kind, or the whole
    /// expression is not a boolean.
    TypeMismatch,
    /// A filter names a function the evaluator does not have.
    UnknownFunction,
}

/// The application context that expressions read.
#[derive(Debug)]
pub struct AppContext {
    pub app_name: String,
    pub app_version: String,
    pub app_build: String,
    pub architecture: String,
    pub device_manufacturer: String,
    pub device_model: String,
    pub locale: String,
    pub os: String,
    pub os_version: String,
    pub channel: String,
    /// The stable randomization identifier.
    pub randomization_id: String,
    /// The current time, in milliseconds since the epoch.
    pub now_ms: u64,
    /// Slugs of the experiments the host reports as active.
    pub active_experiments: Vec<String>,
    /// The host's preferences.
    pub preferences: Vec<Preference>,
}

/// A preference value of the host.
#[derive(Debug)]
pub enum PrefValue {
    Bool(bool),
    Num(u64),
    Text(String),
}

/// A named preference of the host.
#[derive(Debug)]
pub struct Preference {
    pub name: String,
    pub value: PrefValue,
}

/// The value a preference holds.
pub open spec fn pref_model(v: PrefValue) -> ValueModel {
    match v {
        PrefValue::Bool(b) => ValueModel::Bool(b),
        PrefValue::Num(n) => ValueModel::Num(n as int),
        PrefValue::Text(t) => ValueModel::Text(t@),
    }
}

/// The value of the first preference named `name`, or null.
pub open spec fn pref_of(prefs: Seq<Preference>, name: Seq<char>) -> ValueModel
    decreases prefs.len(),
{
    if prefs.len() == 0 {
        ValueModel::Null
    } else if prefs[0].name@ == name {
        pref_model(prefs[0].value)
    } else {
        pref_of(prefs.drop_first(), name)
    }
}

/// What an application context holds.
pub struct ContextModel {
    pub app_name: Seq<char>,
    pub app_version: Seq<char>,
    pub app_build: Seq<char>,
    pub architecture: Seq<char>,
    pub device_manufacturer: Seq<char>,
    pub device_model: Seq<char>,
    pub locale: Seq<char>,
    pub os: Seq<char>,
    pub os_version: Seq<char>,
    pub channel: Seq<char>,
    pub randomization_id: Seq<char>,
    pub now_ms: u64,
    pub active_experiments: Seq<Seq<char>>,
    pub preferences: Seq<Preference>,
}

/// The texts of a list of strings.
pub open spec fn texts_of(v: Seq<String>) -> Seq<Seq<char>> {
    v.map_values(|s: String| s@)
}

impl View for AppContext {
    type V = ContextModel;

    open spec fn view(&self) -> ContextModel {
        ContextModel {
            app_name: self.app_name@,
            app_version: self.app_version@,
            app_build: self.app_build@,
            architecture: self.architecture@,
            device_manufacturer: self.device_manufacturer@,
            device_model: self.device_model@,
            locale: self.locale@,
            os: self.os@,
            os_version: self.os_version@,
            channel: self.channel@,
            randomization_id: self.randomization_id@,
            now_ms: self.now_ms,
            active_experiments: texts_of(self.active_experiments@),
            preferences: self.preferences@,
        }
    }
}

/// A value an expression computes.
#[derive(Debug)]
pub enum Value {
    Bool(bool),
    Num(u64),
    Text(String),
    List(Vec<String>),
    Null,
}

/// What a value holds.
pub enum ValueModel {
    Bool(bool),
    Num(int),
    Text(Seq<char>),
    List(Seq<Seq<char>>),
    Null,
}

impl View for Value {
    type V = ValueModel;

    open spec fn view(&self) -> ValueModel {
        match self {
            Value::Bool(b) => ValueModel::Bool(*b),
            Value::Num(n) => ValueModel::Num(*n as int),
            Value::Text(s) => ValueModel::Text(s@),
            Value::List(l) => ValueModel::List(texts_of(l@)),
            Value::Null => ValueModel::Null,
        }
    }
}

/// A comparison operator.
#[derive(Clone, Copy, Debug, PartialEq, Eq, Structural)]
pub enum CmpOp {
    Eq,
    Ne,
    Lt,
    Le,
    Gt,
    Ge,
    In,
}

/// What follows a primary expression.
pub enum OpScan {
    Op(CmpOp, int),
    Nothing,
}

pub open spec fn is_space(c: char) -> bool {
    c == ' ' || c == '\t' || c == '\n' || c == '\r'
}

pub open spec fn is_ident_start(c: char) -> bool {
    ('a' <= c && c <= 'z') || ('A' <= c && c <= 'Z') || c == '_'
}

pub open spec fn is_ident_char(c: char) -> bool {
    is_ident_start(c) || ('0' <= c && c <= '9') || c == '.'
}

/// The end of the identifier characters that begin at `j`.
pub open spec fn ident_end(cs: Seq<char>, j: int) -> int
    decreases cs.len() - j,
{
    if 0 <= j < cs.len() && is_ident_char(cs[j]) {
        ident_end(cs, j + 1)
    } else {
        j
    }
}

/// The index of the first `q` at or after `j`, or the length if none.
pub open spec fn quote_end(cs: Seq<char>, j: int, q: char) -> int
    decreases cs.len() - j,
{
    if j < 0 || j >= cs.len() {
        cs.len() as int
    } else if cs[j] == q {
        j
    } else {
        quote_end(cs, j + 1, q)
    }
}

/// Whether only whitespace follows index `p`.
pub open spec fn blank_from(cs: Seq<char>, p: int) -> bool {
    forall|k: int| p <= k < cs.len() ==> is_space(#[trigger] cs[k])
}

/// The index after `cc`, skipping whitespace before it, if `cc` comes next.
pub open spec fn connective_at(cs: Seq<char>, p: int, c: char) -> Option<int>
    decreases cs.len() - p,
{
    if p < 0 || p >= cs.len() {
        None
    } else if is_space(cs[p]) {
        connective_at(cs, p + 1, c)
    } else if cs[p] == c && p + 1 < cs.len() && cs[p + 1] == c {
        Some(p + 2)
    } else {
        None
    }
}

/// The index after `c`, skipping whitespace before it, if `c` comes next.
pub open spec fn punct_at(cs: Seq<char>, p: int, c: char) -> Option<int>
    decreases cs.len() - p,
{
    if p < 0 || p >= cs.len() {
        None
    } else if is_space(cs[p]) {
        punct_at(cs, p + 1, c)
    } else if cs[p] == c {
        Some(p + 1)
    } else {
        None
    }
}

/// The index after a filter bar `|` (not `||`), skipping whitespace before
/// it, if one comes next.
pub open spec fn pipe_at(cs: Seq<char>, p: int) -> Option<int>
    decreases cs.len() - p,
{
    if p < 0 || p >= cs.len() {
        None
    } else if is_space(cs[p]) {
        pipe_at(cs, p + 1)
    } else if cs[p] == '|' && !(p + 1 < cs.len() && cs[p + 1] == '|') {
        Some(p + 1)
    } else {
        None
    }
}

/// The identifier that comes next, skipping whitespace, and the index after it.
pub open spec fn ident_at(cs: Seq<char>, p: int) -> Option<(Seq<char>, int)>
    decreases cs.len() - p,
{
    if p < 0 || p >= cs.len() {
        None
    } else if is_space(cs[p]) {
        ident_at(cs, p + 1)
    } else if is_ident_start(cs[p]) {
        Some((cs.subrange(p, ident_end(cs, p + 1)), ident_end(cs, p + 1)))
    } else {
        None
    }
}

pub open spec fn is_digit(c: char) -> bool {
    '0' <= c && c <= '9'
}

pub open spec fn digit_of(c: char) -> int {
    (c as u32) as int - ('0' as u32) as int
}

/// The end of the digits that begin at `j`.
pub open spec fn digits_end(cs: Seq<char>, j: int) -> int
    decreases cs.len() - j,
{
    if 0 <= j < cs.len() && is_digit(cs[j]) {
        digits_end(cs, j + 1)
    } else {
        j
    }
}

/// The decimal value of the characters in `[i, k)`.
pub open spec fn digits_value(cs: Seq<char>, i: int, k: int) -> int
    decreases k - i,
{
    if k <= i {
        0
    } else {
        digits_value(cs, i, k - 1) * 10 + digit_of(cs[k - 1])
    }
}

/// The number of days from 1970-01-01 to the given civil date.
pub open spec fn days_from_civil(y: int, m: int, d: int) -> int {
    let y1 = if m <= 2 { y - 1 } else { y };
    let era = y1 / 400;
    let yoe = y1 - era * 400;
    let mp = if m > 2 { m - 3 } else { m + 9 };
    let doy = (153 * mp + 2) / 5 + d - 1;
    let doe = yoe * 365 + yoe / 4 - yoe / 100 + doy;
    era * 146097 + doe - 719468
}

/// The start of the day that the text `YYYY-MM-DD` names, in milliseconds
/// since the epoch, for days from 1970 on.
pub open spec fn date_value(t: Seq<char>) -> Option<int> {
    if t.len() == 10 && t[4] == '-' && t[7] == '-' && digits_end(t, 0) == 4 && digits_end(t, 5) == 7
        && digits_end(t, 8) == 10 {
        let y = digits_value(t, 0, 4);
        let m = digits_value(t, 5, 7);
        let d = digits_value(t, 8, 10);
        if 1970 <= y && 1 <= m <= 12 && 1 <= d <= 31 && days_from_civil(y, m, d) >= 0 {
            Some(days_from_civil(y, m, d) * 86400000)
        } else {
            None
        }
    } else {
        None
    }
}

/// The result of applying a filter without arguments to `v`.
pub open spec fn apply_simple_filter(ctx: ContextModel, name: Seq<char>, v: ValueModel) -> Result<ValueModel, EvalError> {
    if name == "preferenceValue"@ {
        match v {
            ValueModel::Text(t) => Ok(pref_of(ctx.preferences, t)),
            _ => Err(EvalError::TypeMismatch),
        }
    } else if name == "date"@ {
        match v {
            ValueModel::Text(t) => match date_value(t) {
                Some(ms) => Ok(ValueModel::Num(ms)),
                None => Err(EvalError::TypeMismatch),
            },
            _ => Err(EvalError::TypeMismatch),
        }
    } else {
        Err(EvalError::UnknownFunction)
    }
}

/// The result of `bucketSample(start, count, total)` on `v`.
pub open spec fn apply_bucket_sample(v: ValueModel, start: ValueModel, count: ValueModel, total: ValueModel) -> Result<ValueModel, EvalError> {
    match (v, start, count, total) {
        (ValueModel::List(l), ValueModel::Num(a), ValueModel::Num(b), ValueModel::Num(c)) => if l.len() == 2
            && a <= u32::MAX && b <= u32::MAX && c <= u32::MAX {
            Ok(ValueModel::Bool(bucket_decision(l[0], l[1], a as u32, b as u32, c as u32)))
        } else {
            Err(EvalError::TypeMismatch)
        },
        _ => Err(EvalError::TypeMismatch),
    }
}

/// The comparison operator or filter that comes next, skipping whitespace.
pub open spec fn op_at(cs: Seq<char>, p: int) -> OpScan
    decreases cs.len() - p,
{
    if p < 0 || p >= cs.len() {
        OpScan::Nothing
    } else if is_space(cs[p]) {
        op_at(cs, p + 1)
    } else if cs[p] == '=' && p + 1 < cs.len() && cs[p + 1] == '=' {
        OpScan::Op(CmpOp::Eq, p + 2)
    } else if cs[p] == '!' && p + 1 < cs.len() && cs[p + 1] == '=' {
        OpScan::Op(CmpOp::Ne, p + 2)
    } else if cs[p] == '<' && p + 1 < cs.len() && cs[p + 1] == '=' {
        OpScan::Op(CmpOp::Le, p + 2)
    } else if cs[p] == '<' {
        OpScan::Op(CmpOp::Lt, p + 1)
    } else if cs[p] == '>' && p + 1 < cs.len() && cs[p + 1] == '=' {
        OpScan::Op(CmpOp::Ge, p + 2)
    } else if cs[p] == '>' {
        OpScan::Op(CmpOp::Gt, p + 1)
    } else if cs[p] == 'i' && p + 1 < cs.len() && cs[p + 1] == 'n' && (p + 2 >= cs.len()
        || !is_ident_char(cs[p + 2])) {
        OpScan::Op(CmpOp::In, p + 2)
    } else {
        OpScan::Nothing
    }
}

/// A field name without its optional `env.` prefix.
pub open spec fn field_name(name: Seq<char>) -> Seq<char> {
    if name.len() >= 4 && name.subrange(0, 4) == "env."@ {
        name.subrange(4, name.len() as int)
    } else {
        name
    }
}

/// The value of the field `f`, if it names one.
pub open spec fn field_of(ctx: ContextModel, f: Seq<char>) -> Option<ValueModel> {
    if f == "appName"@ {
        Some(ValueModel::Text(ctx.app_name))
    } else if f == "version"@ {
        Some(ValueModel::Text(ctx.app_version))
    } else if f == "appBuild"@ {
        Some(ValueModel::Text(ctx.app_build))
    } else if f == "architecture"@ {
        Some(ValueModel::Text(ctx.architecture))
    } else if f == "deviceManufacturer"@ {
        Some(ValueModel::Text(ctx.device_manufacturer))
    } else if f == "deviceModel"@ {
        Some(ValueModel::Text(ctx.device_model))
    } else if f == "locale"@ {
        Some(ValueModel::Text(ctx.locale))
    } else if f == "os"@ {
        Some(ValueModel::Text(ctx.os))
    } else if f == "osVersion"@ {
        Some(ValueModel::Text(ctx.os_version))
    } else if f == "channel"@ {
        Some(ValueModel::Text(ctx.channel))
    } else if f == "userId"@ {
        Some(ValueModel::Text(ctx.randomization_id))
    } else if f == "currentDate"@ {
        Some(ValueModel::Num(ctx.now_ms as int))
    } else if f == "activeExperiments"@ {
        Some(ValueModel::List(ctx.active_experiments))
    } else {
        None
    }
}

/// The value of the identifier `name`, if it names one.
pub open spec fn field_value(ctx: ContextModel, name: Seq<char>) -> Option<ValueModel> {
    if name == "true"@ {
        Some(ValueModel::Bool(true))
    } else if name == "false"@ {
        Some(ValueModel::Bool(false))
    } else if name == "null"@ {
        Some(ValueModel::Null)
    } else {
        field_of(ctx, field_name(name))
    }
}

/// Whether `a` comes before `b`, character by character.
pub open spec fn text_less(a: Seq<char>, b: Seq<char>) -> bool
    decreases a.len(),
{
    if a.len() == 0 {
        b.len() > 0
    } else if b.len() == 0 {
        false
    } else if a[0] != b[0] {
        (a[0] as u32) < (b[0] as u32)
    } else {
        text_less(a.drop_first(), b.drop_first())
    }
}

/// Whether `a` equals `b`, if values of their kinds can be compared.
pub open spec fn values_equal(a: ValueModel, b: ValueModel) -> Option<bool> {
    match (a, b) {
        (ValueModel::Null, ValueModel::Null) => Some(true),
        (ValueModel::Null, _) => Some(false),
        (_, ValueModel::Null) => Some(false),
        (ValueModel::Bool(x), ValueModel::Bool(y)) => Some(x == y),
        (ValueModel::Num(x), ValueModel::Num(y)) => Some(x == y),
        (ValueModel::Text(x), ValueModel::Text(y)) => Some(x == y),
        _ => None,
    }
}

/// Whether `a` comes before `b`, if values of their kinds are ordered.
pub open spec fn values_less(a: ValueModel, b: ValueModel) -> Option<bool> {
    match (a, b) {
        (ValueModel::Num(x), ValueModel::Num(y)) => Some(x < y),
        (ValueModel::Text(x), ValueModel::Text(y)) => Some(text_less(x, y)),
        _ => None,
    }
}

/// The result of comparing `a` with `b`.
pub open spec fn compare(op: CmpOp, a: ValueModel, b: ValueModel) -> Result<ValueModel, EvalError> {
    let res = match op {
        CmpOp::Eq => values_equal(a, b),
        CmpOp::Ne => match values_equal(a, b) {
            Some(x) => Some(!x),
            None => None,
        },
        CmpOp::Lt => values_less(a, b),
        CmpOp::Gt => values_less(b, a),
        CmpOp::Le => match values_less(b, a) {
            Some(x) => Some(!x),
            None => None,
        },
        CmpOp::Ge => match values_less(a, b) {
            Some(x) => Some(!x),
            None => None,
        },
        CmpOp::In => match (a, b) {
            (ValueModel::Text(x), ValueModel::List(l)) => Some(l.contains(x)),
            _ => None,
        },
    };
    match res {
        Some(x) => Ok(ValueModel::Bool(x)),
        None => Err(EvalError::TypeMismatch),
    }
}

/// A primary expression at `i`: its value and the index after it.
pub open spec fn p_primary(cs: Seq<char>, ctx: ContextModel, i: int) -> Result<(ValueModel, int), EvalError>
    decreases cs.len() - i, 0int,
{
    if i < 0 || i >= cs.len() {
        Err(EvalError::ParseError)
    } else if is_space(cs[i]) {
        p_primary(cs, ctx, i + 1)
    } else if cs[i] == '(' {
        match p_or(cs, ctx, i + 1) {
            Ok((v, p)) => match punct_at(cs, p, ')') {
                Some(q) => Ok((v, q)),
                None => Err(EvalError::ParseError),
            },
            Err(e) => Err(e),
        }
    } else if cs[i] == '\'' || cs[i] == '"' {
        let k = quote_end(cs, i + 1, cs[i]);
        if k >= cs.len() {
            Err(EvalError::ParseError)
        } else {
            Ok((ValueModel::Text(cs.subrange(i + 1, k)), k + 1))
        }
    } else if cs[i] == '[' {
        p_list(cs, ctx, i + 1, Seq::empty())
    } else if is_digit(cs[i]) {
        let k = digits_end(cs, i);
        if k - i > 18 {
            Err(EvalError::ParseError)
        } else {
            Ok((ValueModel::Num(digits_value(cs, i, k)), k))
        }
    } else if is_ident_start(cs[i]) {
        let k = ident_end(cs, i + 1);
        match field_value(ctx, cs.subrange(i, k)) {
            Some(v) => Ok((v, k)),
            None => Err(EvalError::UnknownField),
        }
    } else {
        Err(EvalError::ParseError)
    }
}

/// The rest of a list literal from `j`, with the strings `acc` read so far.
pub open spec fn p_list(cs: Seq<char>, ctx: ContextModel, j: int, acc: Seq<Seq<char>>) -> Result<(ValueModel, int), EvalError>
    decreases cs.len() - j, 1int,
{
    match punct_at(cs, j, ']') {
        Some(q) => Ok((ValueModel::List(acc), q)),
        None => match p_primary(cs, ctx, j) {
            Err(e) => Err(e),
            Ok((ValueModel::Text(t), r)) => if r <= j || r > cs.len() {
                Err(EvalError::ParseError)
            } else {
                match punct_at(cs, r, ',') {
                    Some(q) => if q <= j || q > cs.len() {
                        Err(EvalError::ParseError)
                    } else {
                        p_list(cs, ctx, q, acc.push(t))
                    },
                    None => match punct_at(cs, r, ']') {
                        Some(q) => Ok((ValueModel::List(acc.push(t)), q)),
                        None => Err(EvalError::ParseError),
                    },
                }
            },
            Ok(_) => Err(EvalError::TypeMismatch),
        },
    }
}

/// The filters applied from `p` on to the value `acc`.
pub open spec fn p_filters(cs: Seq<char>, ctx: ContextModel, acc: ValueModel, p: int) -> Result<(ValueModel, int), EvalError>
    decreases cs.len() - p, 1int,
{
    match pipe_at(cs, p) {
        None => Ok((acc, p)),
        Some(q) => match ident_at(cs, q) {
            None => Err(EvalError::ParseError),
            Some((name, k)) => if k <= p || k > cs.len() {
                Err(EvalError::ParseError)
            } else if name == "bucketSample"@ {
                match p_args(cs, ctx, k) {
                    Err(e) => Err(e),
                    Ok((a, b, c, r)) => if r <= p || r > cs.len() {
                        Err(EvalError::ParseError)
                    } else {
                        match apply_bucket_sample(acc, a, b, c) {
                            Err(e) => Err(e),
                            Ok(v) => p_filters(cs, ctx, v, r),
                        }
                    },
                }
            } else {
                match apply_simple_filter(ctx, name, acc) {
                    Err(e) => Err(e),
                    Ok(v) => p_filters(cs, ctx, v, k),
                }
            },
        },
    }
}

/// The three arguments `(a, b, c)` of a filter from `k`, and the index after them.
pub open spec fn p_args(cs: Seq<char>, ctx: ContextModel, k: int) -> Result<(ValueModel, ValueModel, ValueModel, int), EvalError>
    decreases cs.len() - k, 0int,
{
    match punct_at(cs, k, '(') {
        None => Err(EvalError::ParseError),
        Some(k1) => if k1 <= k || k1 > cs.len() {
            Err(EvalError::ParseError)
        } else {
            match p_primary(cs, ctx, k1) {
                Err(e) => Err(e),
                Ok((a, r1)) => match punct_at(cs, r1, ',') {
                    None => Err(EvalError::ParseError),
                    Some(k2) => if k2 <= k || k2 > cs.len() {
                        Err(EvalError::ParseError)
                    } else {
                        match p_primary(cs, ctx, k2) {
                            Err(e) => Err(e),
                            Ok((b, r2)) => match punct_at(cs, r2, ',') {
                                None => Err(EvalError::ParseError),
                                Some(k3) => if k3 <= k || k3 > cs.len() {
                                    Err(EvalError::ParseError)
                                } else {
                                    match p_primary(cs, ctx, k3) {
                                        Err(e) => Err(e),
                                        Ok((c, r3)) => match punct_at(cs, r3, ')') {
                                            None => Err(EvalError::ParseError),
                                            Some(r) => Ok((a, b, c, r)),
                                        },
                                    }
                                },
                            },
                        }
                    },
                },
            }
        },
    }
}

/// A primary expression at `i` with the filters applied to it.
pub open spec fn p_postfix(cs: Seq<char>, ctx: ContextModel, i: int) -> Result<(ValueModel, int), EvalError>
    decreases cs.len() - i, 2int,
{
    match p_primary(cs, ctx, i) {
        Err(e) => Err(e),
        Ok((v, p)) => if p <= i || p > cs.len() {
            Err(EvalError::ParseError)
        } else {
            p_filters(cs, ctx, v, p)
        },
    }
}

/// A comparison at `i`.
pub open spec fn p_cmp(cs: Seq<char>, ctx: ContextModel, i: int) -> Result<(ValueModel, int), EvalError>
    decreases cs.len() - i, 3int,
{
    match p_postfix(cs, ctx, i) {
        Err(e) => Err(e),
        Ok((a, p)) => if p <= i {
            Err(EvalError::ParseError)
        } else {
            match op_at(cs, p) {
                OpScan::Op(op, q) => if q <= i || q > cs.len() {
                    Err(EvalError::ParseError)
                } else {
                    match p_postfix(cs, ctx, q) {
                        Err(e) => Err(e),
                        Ok((b, r)) => match compare(op, a, b) {
                            Ok(v) => Ok((v, r)),
                            Err(e) => Err(e),
                        },
                    }
                },
                OpScan::Nothing => Ok((a, p)),
            }
        },
    }
}

/// A negation, or a comparison, at `i`.
pub open spec fn p_not(cs: Seq<char>, ctx: ContextModel, i: int) -> Result<(ValueModel, int), EvalError>
    decreases cs.len() - i, 4int,
{
    if i < 0 || i >= cs.len() {
        Err(EvalError::ParseError)
    } else if is_space(cs[i]) {
        p_not(cs, ctx, i + 1)
    } else if cs[i] == '!' && !(i + 1 < cs.len() && cs[i + 1] == '=') {
        match p_not(cs, ctx, i + 1) {
            Ok((ValueModel::Bool(b), p)) => Ok((ValueModel::Bool(!b), p)),
            Ok((ValueModel::Null, p)) => Ok((ValueModel::Bool(true), p)),
            Ok(_) => Err(EvalError::TypeMismatch),
            Err(e) => Err(e),
        }
    } else {
        p_cmp(cs, ctx, i)
    }
}

/// The rest of a conjunction whose value so far is `acc`, from `p`.
pub open spec fn p_and_rest(cs: Seq<char>, ctx: ContextModel, acc: ValueModel, p: int) -> Result<(ValueModel, int), EvalError>
    decreases cs.len() - p, 5int,
{
    match connective_at(cs, p, '&') {
        None => Ok((acc, p)),
        Some(q) => if q <= p || q > cs.len() {
            Err(EvalError::ParseError)
        } else {
            match p_not(cs, ctx, q) {
                Err(e) => Err(e),
                Ok((v, r)) => if r <= p || r > cs.len() {
                    Err(EvalError::ParseError)
                } else {
                    match (acc, v) {
                        (ValueModel::Bool(a), ValueModel::Bool(b)) => p_and_rest(cs, ctx, ValueModel::Bool(a && b), r),
                        _ => Err(EvalError::TypeMismatch),
                    }
                },
            }
        },
    }
}

/// A conjunction at `i`.
pub open spec fn p_and(cs: Seq<char>, ctx: ContextModel, i: int) -> Result<(ValueModel, int), EvalError>
    decreases cs.len() - i, 6int,
{
    match p_not(cs, ctx, i) {
        Err(e) => Err(e),
        Ok((v, p)) => if p <= i || p > cs.len() {
            Err(EvalError::ParseError)
        } else {
            p_and_rest(cs, ctx, v, p)
        },
    }
}

/// The rest of a disjunction whose value so far is `acc`, from `p`.
pub open spec fn p_or_rest(cs: Seq<char>, ctx: ContextModel, acc: ValueModel, p: int) -> Result<(ValueModel, int), EvalError>
    decreases cs.len() - p, 7int,
{
    match connective_at(cs, p, '|') {
        None => Ok((acc, p)),
        Some(q) => if q <= p || q > cs.len() {
            Err(EvalError::ParseError)
        } else {
            match p_and(cs, ctx, q) {
                Err(e) => Err(e),
                Ok((v, r)) => if r <= p || r > cs.len() {
                    Err(EvalError::ParseError)
                } else {
                    match (acc, v) {
                        (ValueModel::Bool(a), ValueModel::Bool(b)) => p_or_rest(cs, ctx, ValueModel::Bool(a || b), r),
                        _ => Err(EvalError::TypeMismatch),
                    }
                },
            }
        },
    }
}

/// A disjunction at `i`.
pub open spec fn p_or(cs: Seq<char>, ctx: ContextModel, i: int) -> Result<(ValueModel, int), EvalError>
    decreases cs.len() - i, 8int,
{
    match p_and(cs, ctx, i) {
        Err(e) => Err(e),
        Ok((v, p)) => if p <= i || p > cs.len() {
            Err(EvalError::ParseError)
        } else {
            p_or_rest(cs, ctx, v, p)
        },
    }
}

/// The boolean value of the expression `cs` in the context `ctx`.
pub open spec fn eval_expr(cs: Seq<char>, ctx: ContextModel) -> Result<bool, EvalError> {
    match p_or(cs, ctx, 0) {
        Err(e) => Err(e),
        Ok((v, p)) => if !blank_from(cs, p) {
            Err(EvalError::ParseError)
        } else {
            match v {
                ValueModel::Bool(b) => Ok(b),
                _ => Err(EvalError::TypeMismatch),
            }
        },
    }
}

/// Whether the targeting expression `t` admits the user: an absent or blank
/// expression admits everyone; one that cannot be evaluated admits no one.
pub open spec fn targeting_allows(t: Option<String>, ctx: ContextModel) -> bool {
    match t {
        None => true,
        Some(s) => blank_from(s@, 0) || eval_expr(s@, ctx) == Ok::<bool, EvalError>(true),
    }
}

/// An evaluation result agrees with the language's meaning.
pub open spec fn agrees(r: Result<(Value, usize), EvalError>, s: Result<(ValueModel, int), EvalError>) -> bool {
    match (r, s) {
        (Ok((v, p)), Ok((sv, sp))) => v@ == sv && p as int == sp,
        (Err(e), Err(se)) => e == se,
        _ => false,
    }
}

/// What [`op_at`] finds, with positions as indices.
enum Scan {
    Op(CmpOp, usize),
    Nothing,
}

fn space_char(c: char) -> (r: bool)
    ensures
        r == is_space(c),
{
    c == ' ' || c == '\t' || c == '\n' || c == '\r'
}

fn ident_start_char(c: char) -> (r: bool)
    ensures
        r == is_ident_start(c),
{
    ('a' <= c && c <= 'z') || ('A' <= c && c <= 'Z') || c == '_'
}

fn ident_char(c: char) -> (r: bool)
    ensures
        r == is_ident_char(c),
{
    ident_start_char(c) || ('0' <= c && c <= '9') || c == '.'
}

fn find_ident_end(s: &str, n: usize, j: usize) -> (r: usize)
    requires
        n == s@.len(),
        j <= n,
    ensures
        r as int == ident_end(s@, j as int),
        j <= r <= n,
{
    let mut k: usize = j;
    while k < n && ident_char(s.get_char(k))
        invariant
            n == s@.len(),
            j <= k <= n,
            ident_end(s@, j as int) == ident_end(s@, k as int),
        decreases n - k,
    {
        k = k + 1;
    }
    k
}

fn find_quote_end(s: &str, n: usize, j: usize, q: char) -> (r: usize)
    requires
        n == s@.len(),
        j <= n,
    ensures
        r as int == quote_end(s@, j as int, q),
        j <= r <= n,
{
    let mut k: usize = j;
    while k < n && s.get_char(k) != q
        invariant
            n == s@.len(),
            j <= k <= n,
            quote_end(s@, j as int, q) == quote_end(s@, k as int, q),
        decreases n - k,
    {
        k = k + 1;
    }
    k
}

fn is_blank_from(s: &str, n: usize, p: usize) -> (r: bool)
    requires
        n == s@.len(),
    ensures
        r == blank_from(s@, p as int),
{
    let mut k: usize = p;
    while k < n
        invariant
            n == s@.len(),
            p <= k,
            forall|m: int| p <= m < k ==> is_space(#[trigger] s@[m]),
        decreases n - k,
    {
        if !space_char(s.get_char(k)) {
            return false;
        }
        k = k + 1;
    }
    true
}

fn find_connective(s: &str, n: usize, p: usize, c: char) -> (r: Option<usize>)
    requires
        n == s@.len(),
    ensures
        match r {
            Some(q) => connective_at(s@, p as int, c) == Some(q as int),
            None => connective_at(s@, p as int, c) is None,
        },
{
    let mut k: usize = p;
    while k < n && space_char(s.get_char(k))
        invariant
            n == s@.len(),
            p <= k,
            connective_at(s@, p as int, c) == connective_at(s@, k as int, c),
        decreases n - k,
    {
        k = k + 1;
    }
    if k < n && k + 1 < n && s.get_char(k) == c && s.get_char(k + 1) == c {
        Some(k + 2)
    } else {
        None
    }
}

fn find_punct(s: &str, n: usize, p: usize, c: char) -> (r: Option<usize>)
    requires
        n == s@.len(),
    ensures
        match r {
            Some(q) => punct_at(s@, p as int, c) == Some(q as int) && q <= n,
            None => punct_at(s@, p as int, c) is None,
        },
{
    let mut k: usize = p;
    while k < n && space_char(s.get_char(k))
        invariant
            n == s@.len(),
            p <= k,
            punct_at(s@, p as int, c) == punct_at(s@, k as int, c),
        decreases n - k,
    {
        k = k + 1;
    }
    if k < n && s.get_char(k) == c {
        Some(k + 1)
    } else {
        None
    }
}

fn find_pipe(s: &str, n: usize, p: usize) -> (r: Option<usize>)
    requires
        n == s@.len(),
    ensures
        match r {
            Some(q) => pipe_at(s@, p as int) == Some(q as int) && q <= n,
            None => pipe_at(s@, p as int) is None,
        },
{
    let mut k: usize = p;
    while k < n && space_char(s.get_char(k))
        invariant
            n == s@.len(),
            p <= k,
            pipe_at(s@, p as int) == pipe_at(s@, k as int),
        decreases n - k,
    {
        k = k + 1;
    }
    if k < n && s.get_char(k) == '|' && !(k + 1 < n && s.get_char(k + 1) == '|') {
        Some(k + 1)
    } else {
        None
    }
}

fn find_ident(s: &str, n: usize, p: usize) -> (r: Option<(String, usize)>)
    requires
        n == s@.len(),
    ensures
        match r {
            Some((name, k)) => ident_at(s@, p as int) == Some((name@, k as int)) && k <= n,
            None => ident_at(s@, p as int) is None,
        },
{
    let mut k: usize = p;
    while k < n && space_char(s.get_char(k))
        invariant
            n == s@.len(),
            p <= k,
            ident_at(s@, p as int) == ident_at(s@, k as int),
        decreases n - k,
    {
        k = k + 1;
    }
    if k < n && ident_start_char(s.get_char(k)) {
        let e = find_ident_end(s, n, k + 1);
        Some((String::from_str(s.substring_char(k, e)), e))
    } else {
        None
    }
}

fn find_digits_end(s: &str, n: usize, j: usize) -> (r: usize)
    requires
        n == s@.len(),
        j <= n,
    ensures
        r as int == digits_end(s@, j as int),
        j <= r <= n,
        forall|m: int| j <= m < r ==> is_digit(#[trigger] s@[m]),
{
    let mut k: usize = j;
    while k < n && '0' <= s.get_char(k) && s.get_char(k) <= '9'
        invariant
            n == s@.len(),
            j <= k <= n,
            digits_end(s@, j as int) == digits_end(s@, k as int),
            forall|m: int| j <= m < k ==> is_digit(#[trigger] s@[m]),
        decreases n - k,
    {
        k = k + 1;
    }
    k
}

/// Ten to the power `e`.
pub open spec fn pow10(e: nat) -> int
    decreases e,
{
    if e == 0 {
        1
    } else {
        10 * pow10((e - 1) as nat)
    }
}

proof fn lemma_pow10_mono(a: nat, b: nat)
    requires
        a <= b,
    ensures
        1 <= pow10(a) <= pow10(b),
    decreases b,
{
    if b > a {
        lemma_pow10_mono(a, (b - 1) as nat);
    } else if a > 0 {
        lemma_pow10_mono((a - 1) as nat, (a - 1) as nat);
    }
}

fn read_digits(s: &str, n: usize, i: usize, k: usize) -> (r: u64)
    requires
        n == s@.len(),
        i <= k <= n,
        k - i <= 18,
        forall|m: int| i <= m < k ==> is_digit(#[trigger] s@[m]),
    ensures
        r as int == digits_value(s@, i as int, k as int),
        (r as int) < pow10((k - i) as nat),
{
    let mut acc: u64 = 0;
    let mut j: usize = i;
    proof {
        reveal_with_fuel(pow10, 19);
        assert(pow10(18) == 1_000_000_000_000_000_000);
    }
    while j < k
        invariant
            n == s@.len(),
            i <= j <= k <= n,
            k - i <= 18,
            forall|m: int| i <= m < k ==> is_digit(#[trigger] s@[m]),
            acc as int == digits_value(s@, i as int, j as int),
            (acc as int) < pow10((j - i) as nat),
            pow10(18) == 1_000_000_000_000_000_000,
        decreases k - j,
    {
        let c = s.get_char(j);
        assert(is_digit(s@[j as int]));
        let d: u64 = (c as u32 - '0' as u32) as u64;
        proof {
            lemma_pow10_mono((j - i) as nat, 17);
            let pw = pow10((j - i) as nat);
            assert(pow10((j + 1 - i) as nat) == 10 * pw);
            assert(acc * 10 + d < 10 * pw) by (nonlinear_arith)
                requires acc < pw, d < 10;
            assert(pow10(17) == 100_000_000_000_000_000);
        }
        acc = acc * 10 + d;
        j = j + 1;
    }
    acc
}

fn parse_date(t: &String) -> (r: Option<u64>)
    ensures
        match r {
            Some(ms) => date_value(t@) == Some(ms as int),
            None => date_value(t@) is None,
        },
{
    let s = t.as_str();
    let n = s.unicode_len();
    if n != 10 || s.get_char(4) != '-' || s.get_char(7) != '-' {
        return None;
    }
    if find_digits_end(s, n, 0) != 4 || find_digits_end(s, n, 5) != 7 || find_digits_end(s, n, 8) != 10 {
        return None;
    }
    proof {
        reveal_with_fuel(pow10, 5);
    }
    let y = read_digits(s, n, 0, 4);
    let m = read_digits(s, n, 5, 7);
    let d = read_digits(s, n, 8, 10);
    if !(1970 <= y && 1 <= m && m <= 12 && 1 <= d && d <= 31) {
        return None;
    }
    let y1: u64 = if m <= 2 { y - 1 } else { y };
    let era: u64 = y1 / 400;
    let yoe: u64 = y1 - era * 400;
    let mp: u64 = if m > 2 { m - 3 } else { m + 9 };
    let doy: u64 = (153 * mp + 2) / 5 + d - 1;
    assert(yoe / 100 <= yoe * 365) by (nonlinear_arith)
        requires yoe >= 0;
    assert(era <= 25 && yoe <= y1) by (nonlinear_arith)
        requires era == y1 / 400, y1 < 10000, yoe == y1 - era * 400, era * 400 <= y1;
    let doe: u64 = yoe * 365 + yoe / 4 + doy - yoe / 100;
    let total: u64 = era * 146097 + doe;
    if total < 719468 {
        return None;
    }
    Some((total - 719468) * 86400000)
}

fn find_op(s: &str, n: usize, p: usize) -> (r: Scan)
    requires
        n == s@.len(),
    ensures
        match (r, op_at(s@, p as int)) {
            (Scan::Op(o, q), OpScan::Op(so, sq)) => o == so && q as int == sq,
            (Scan::Nothing, OpScan::Nothing) => true,
            _ => false,
        },
{
    let mut k: usize = p;
    while k < n && space_char(s.get_char(k))
        invariant
            n == s@.len(),
            p <= k,
            op_at(s@, p as int) == op_at(s@, k as int),
        decreases n - k,
    {
        k = k + 1;
    }
    if k >= n {
        return Scan::Nothing;
    }
    let c = s.get_char(k);
    let next_is = |x: char| -> (b: bool)
        ensures
            b == (k + 1 < n && s@[k + 1] == x),
        { k + 1 < n && s.get_char(k + 1) == x };
    if c == '=' && next_is('=') {
        Scan::Op(CmpOp::Eq, k + 2)
    } else if c == '!' && next_is('=') {
        Scan::Op(CmpOp::Ne, k + 2)
    } else if c == '<' && next_is('=') {
        Scan::Op(CmpOp::Le, k + 2)
    } else if c == '<' {
        Scan::Op(CmpOp::Lt, k + 1)
    } else if c == '>' && next_is('=') {
        Scan::Op(CmpOp::Ge, k + 2)
    } else if c == '>' {
        Scan::Op(CmpOp::Gt, k + 1)
    } else if c == 'i' && next_is('n') && (k + 2 >= n || !ident_char(s.get_char(k + 2))) {
        Scan::Op(CmpOp::In, k + 2)
    } else {
        Scan::Nothing
    }
}

fn copy_texts(v: &Vec<String>) -> (r: Vec<String>)
    ensures
        texts_of(r@) == texts_of(v@),
{
    let mut out: Vec<String> = Vec::new();
    let mut i: usize = 0;
    while i < v.len()
        invariant
            i <= v@.len(),
            out@ == v@.subrange(0, i as int),
        decreases v@.len() - i,
    {
        out.push(v[i].clone());
        i = i + 1;
        assert(out@ =~= v@.subrange(0, i as int));
    }
    assert(out@ =~= v@);
    out
}

fn field_text(f: &String, lit: &str) -> (r: bool)
    ensures
        r == (f@ == lit@),
{
    *f == String::from_str(lit)
}

fn lookup_named_field(ctx: &AppContext, f: &String) -> (r: Option<Value>)
    ensures
        match r {
            Some(v) => field_of(ctx@, f@) == Some(v@),
            None => field_of(ctx@, f@) is None,
        },
{
    if field_text(f, "appName") {
        Some(Value::Text(ctx.app_name.clone()))
    } else if field_text(f, "version") {
        Some(Value::Text(ctx.app_version.clone()))
    } else if field_text(f, "appBuild") {
        Some(Value::Text(ctx.app_build.clone()))
    } else if field_text(f, "architecture") {
        Some(Value::Text(ctx.architecture.clone()))
    } else if field_text(f, "deviceManufacturer") {
        Some(Value::Text(ctx.device_manufacturer.clone()))
    } else if field_text(f, "deviceModel") {
        Some(Value::Text(ctx.device_model.clone()))
    } else if field_text(f, "locale") {
        Some(Value::Text(ctx.locale.clone()))
    } else if field_text(f, "os") {
        Some(Value::Text(ctx.os.clone()))
    } else if field_text(f, "osVersion") {
        Some(Value::Text(ctx.os_version.clone()))
    } else if field_text(f, "channel") {
        Some(Value::Text(ctx.channel.clone()))
    } else if field_text(f, "userId") {
        Some(Value::Text(ctx.randomization_id.clone()))
    } else if field_text(f, "currentDate") {
        Some(Value::Num(ctx.now_ms))
    } else if field_text(f, "activeExperiments") {
        Some(Value::List(copy_texts(&ctx.active_experiments)))
    } else {
        None
    }
}

fn lookup_field(ctx: &AppContext, name: &String) -> (r: Option<Value>)
    ensures
        match r {
            Some(v) => field_value(ctx@, name@) == Some(v@),
            None => field_value(ctx@, name@) is None,
        },
{
    if field_text(name, "true") {
        return Some(Value::Bool(true));
    } else if field_text(name, "false") {
        return Some(Value::Bool(false));
    } else if field_text(name, "null") {
        return Some(Value::Null);
    }
    let t = name.as_str();
    let n = t.unicode_len();
    if n >= 4 && field_text(&String::from_str(t.substring_char(0, 4)), "env.") {
        let f = String::from_str(t.substring_char(4, n));
        lookup_named_field(ctx, &f)
    } else {
        lookup_named_field(ctx, name)
    }
}

fn pref_value(p: &PrefValue) -> (r: Value)
    ensures
        r@ == pref_model(*p),
{
    match p {
        PrefValue::Bool(b) => Value::Bool(*b),
        PrefValue::Num(x) => Value::Num(*x),
        PrefValue::Text(t) => Value::Text(t.clone()),
    }
}

fn lookup_pref(prefs: &Vec<Preference>, name: &String) -> (r: Value)
    ensures
        r@ == pref_of(prefs@, name@),
{
    let mut i: usize = 0;
    assert(prefs@.subrange(0, prefs@.len() as int) =~= prefs@);
    while i < prefs.len()
        invariant
            i <= prefs@.len(),
            pref_of(prefs@, name@) == pref_of(prefs@.subrange(i as int, prefs@.len() as int), name@),
        decreases prefs@.len() - i,
    {
        assert(prefs@.subrange(i as int, prefs@.len() as int).drop_first() =~= prefs@.subrange(i as int + 1, prefs@.len() as int));
        if prefs[i].name == *name {
            return pref_value(&prefs[i].value);
        }
        i = i + 1;
    }
    Value::Null
}

fn less_text(a: &String, b: &String) -> (r: bool)
    ensures
        r == text_less(a@, b@),
{
    let sa = a.as_str();
    let sb = b.as_str();
    let na = sa.unicode_len();
    let nb = sb.unicode_len();
    let mut k: usize = 0;
    assert(a@.subrange(0, na as int) =~= a@);
    assert(b@.subrange(0, nb as int) =~= b@);
    while k < na && k < nb && sa.get_char(k) == sb.get_char(k)
        invariant
            sa@ == a@,
            sb@ == b@,
            na == a@.len(),
            nb == b@.len(),
            k <= na,
            k <= nb,
            text_less(a@, b@) == text_less(a@.subrange(k as int, na as int), b@.subrange(k as int, nb as int)),
        decreases na - k,
    {
        assert(a@.subrange(k as int, na as int).drop_first() =~= a@.subrange(k as int + 1, na as int));
        assert(b@.subrange(k as int, nb as int).drop_first() =~= b@.subrange(k as int + 1, nb as int));
        k = k + 1;
    }
    if k >= na {
        k < nb
    } else if k >= nb {
        false
    } else {
        (sa.get_char(k) as u32) < (sb.get_char(k) as u32)
    }
}

fn equal_values(a: &Value, b: &Value) -> (r: Option<bool>)
    ensures
        r == values_equal(a@, b@),
{
    match (a, b) {
        (Value::Null, Value::Null) => Some(true),
        (Value::Null, _) => Some(false),
        (_, Value::Null) => Some(false),
        (Value::Bool(x), Value::Bool(y)) => Some(*x == *y),
        (Value::Num(x), Value::Num(y)) => Some(*x == *y),
        (Value::Text(x), Value::Text(y)) => Some(*x == *y),
        _ => None,
    }
}

fn less_values(a: &Value, b: &Value) -> (r: Option<bool>)
    ensures
        r == values_less(a@, b@),
{
    match (a, b) {
        (Value::Num(x), Value::Num(y)) => Some(*x < *y),
        (Value::Text(x), Value::Text(y)) => Some(less_text(x, y)),
        _ => None,
    }
}

fn negate(o: Option<bool>) -> (r: Option<bool>)
    ensures
        r == match o {
            Some(x) => Some(!x),
            None => None::<bool>,
        },
{
    match o {
        Some(x) => Some(!x),
        None => None,
    }
}

fn list_contains(l: &Vec<String>, x: &String) -> (r: bool)
    ensures
        r == texts_of(l@).contains(x@),
{
    let mut i: usize = 0;
    while i < l.len()
        invariant
            i <= l@.len(),
            forall|k: int| 0 <= k < i ==> (#[trigger] l@[k])@ != x@,
        decreases l@.len() - i,
    {
        if l[i] == *x {
            assert(texts_of(l@)[i as int] == x@);
            return true;
        }
        i = i + 1;
    }
    assert forall|k: int| 0 <= k < texts_of(l@).len() implies texts_of(l@)[k] != x@ by {
        assert(texts_of(l@)[k] == l@[k]@);
    }
    false
}

fn compare_values(op: CmpOp, a: Value, b: Value) -> (r: Result<Value, EvalError>)
    ensures
        match (r, compare(op, a@, b@)) {
            (Ok(v), Ok(sv)) => v@ == sv,
            (Err(e), Err(se)) => e == se,
            _ => false,
        },
{
    let res = match op {
        CmpOp::Eq => equal_values(&a, &b),
        CmpOp::Ne => negate(equal_values(&a, &b)),
        CmpOp::Lt => less_values(&a, &b),
        CmpOp::Gt => less_values(&b, &a),
        CmpOp::Le => negate(less_values(&b, &a)),
        CmpOp::Ge => negate(less_values(&a, &b)),
        CmpOp::In => match (&a, &b) {
            (Value::Text(x), Value::List(l)) => Some(list_contains(l, x)),
            _ => None,
        },
    };
    match res {
        Some(x) => Ok(Value::Bool(x)),
        None => Err(EvalError::TypeMismatch),
    }
}

fn simple_filter(ctx: &AppContext, name: &String, v: Value) -> (r: Result<Value, EvalError>)
    ensures
        match (r, apply_simple_filter(ctx@, name@, v@)) {
            (Ok(x), Ok(sx)) => x@ == sx,
            (Err(e), Err(se)) => e == se,
            _ => false,
        },
{
    if field_text(name, "preferenceValue") {
        match v {
            Value::Text(t) => Ok(lookup_pref(&ctx.preferences, &t)),
            _ => Err(EvalError::TypeMismatch),
        }
    } else if field_text(name, "date") {
        match v {
            Value::Text(t) => match parse_date(&t) {
                Some(ms) => Ok(Value::Num(ms)),
                None => Err(EvalError::TypeMismatch),
            },
            _ => Err(EvalError::TypeMismatch),
        }
    } else {
        Err(EvalError::UnknownFunction)
    }
}

fn bucket_sample(v: Value, a: Value, b: Value, c: Value) -> (r: Result<Value, EvalError>)
    ensures
        match (r, apply_bucket_sample(v@, a@, b@, c@)) {
            (Ok(x), Ok(sx)) => x@ == sx,
            (Err(e), Err(se)) => e == se,
            _ => false,
        },
{
    match (v, a, b, c) {
        (Value::List(l), Value::Num(x), Value::Num(y), Value::Num(z)) => {
            if l.len() == 2 && x <= u32::MAX as u64 && y <= u32::MAX as u64 && z <= u32::MAX as u64 {
                assert(texts_of(l@)[0] == l@[0]@ && texts_of(l@)[1] == l@[1]@);
                Ok(Value::Bool(in_bucket(l[0].as_str(), l[1].as_str(), x as u32, y as u32, z as u32)))
            } else {
                Err(EvalError::TypeMismatch)
            }
        },
        _ => Err(EvalError::TypeMismatch),
    }
}

fn e_primary(s: &str, n: usize, ctx: &AppContext, i: usize) -> (r: Result<(Value, usize), EvalError>)
    requires
        n == s@.len(),
    ensures
        agrees(r, p_primary(s@, ctx@, i as int)),
    decreases s@.len() - i, 0int,
{
    if i >= n {
        return Err(EvalError::ParseError);
    }
    let c = s.get_char(i);
    if space_char(c) {
        e_primary(s, n, ctx, i + 1)
    } else if c == '(' {
        match e_or(s, n, ctx, i + 1) {
            Ok((v, p)) => match find_punct(s, n, p, ')') {
                Some(q) => Ok((v, q)),
                None => Err(EvalError::ParseError),
            },
            Err(e) => Err(e),
        }
    } else if c == '\'' || c == '"' {
        let k = find_quote_end(s, n, i + 1, c);
        if k >= n {
            Err(EvalError::ParseError)
        } else {
            let text = String::from_str(s.substring_char(i + 1, k));
            Ok((Value::Text(text), k + 1))
        }
    } else if c == '[' {
        let empty: Vec<String> = Vec::new();
        assert(texts_of(empty@) =~= Seq::<Seq<char>>::empty());
        e_list(s, n, ctx, i + 1, empty)
    } else if '0' <= c && c <= '9' {
        let k = find_digits_end(s, n, i);
        if k - i > 18 {
            Err(EvalError::ParseError)
        } else {
            Ok((Value::Num(read_digits(s, n, i, k)), k))
        }
    } else if ident_start_char(c) {
        let k = find_ident_end(s, n, i + 1);
        let name = String::from_str(s.substring_char(i, k));
        match lookup_field(ctx, &name) {
            Some(v) => Ok((v, k)),
            None => Err(EvalError::UnknownField),
        }
    } else {
        Err(EvalError::ParseError)
    }
}

fn e_list(s: &str, n: usize, ctx: &AppContext, j: usize, acc: Vec<String>) -> (r: Result<(Value, usize), EvalError>)
    requires
        n == s@.len(),
    ensures
        agrees(r, p_list(s@, ctx@, j as int, texts_of(acc@))),
    decreases s@.len() - j, 1int,
{
    if let Some(q) = find_punct(s, n, j, ']') {
        return Ok((Value::List(acc), q));
    }
    match e_primary(s, n, ctx, j) {
        Err(e) => Err(e),
        Ok((Value::Text(t), r)) => {
            if r <= j || r > n {
                return Err(EvalError::ParseError);
            }
            let mut acc = acc;
            let ghost before = acc@;
            acc.push(t);
            assert(texts_of(acc@) =~= texts_of(before).push(acc@.last()@));
            match find_punct(s, n, r, ',') {
                Some(q) => {
                    if q <= j || q > n {
                        return Err(EvalError::ParseError);
                    }
                    e_list(s, n, ctx, q, acc)
                },
                None => match find_punct(s, n, r, ']') {
                    Some(q) => Ok((Value::List(acc), q)),
                    None => Err(EvalError::ParseError),
                },
            }
        },
        Ok(_) => Err(EvalError::TypeMismatch),
    }
}

fn e_args(s: &str, n: usize, ctx: &AppContext, k: usize) -> (r: Result<(Value, Value, Value, usize), EvalError>)
    requires
        n == s@.len(),
    ensures
        match (r, p_args(s@, ctx@, k as int)) {
            (Ok((a, b, c, q)), Ok((sa, sb, sc, sq))) => a@ == sa && b@ == sb && c@ == sc && q as int == sq,
            (Err(e), Err(se)) => e == se,
            _ => false,
        },
    decreases s@.len() - k, 0int,
{
    let k1 = match find_punct(s, n, k, '(') {
        None => return Err(EvalError::ParseError),
        Some(k1) => k1,
    };
    if k1 <= k || k1 > n {
        return Err(EvalError::ParseError);
    }
    let (a, r1) = match e_primary(s, n, ctx, k1) {
        Err(e) => return Err(e),
        Ok(x) => x,
    };
    let k2 = match find_punct(s, n, r1, ',') {
        None => return Err(EvalError::ParseError),
        Some(k2) => k2,
    };
    if k2 <= k || k2 > n {
        return Err(EvalError::ParseError);
    }
    let (b, r2) = match e_primary(s, n, ctx, k2) {
        Err(e) => return Err(e),
        Ok(x) => x,
    };
    let k3 = match find_punct(s, n, r2, ',') {
        None => return Err(EvalError::ParseError),
        Some(k3) => k3,
    };
    if k3 <= k || k3 > n {
        return Err(EvalError::ParseError);
    }
    let (c, r3) = match e_primary(s, n, ctx, k3) {
        Err(e) => return Err(e),
        Ok(x) => x,
    };
    match find_punct(s, n, r3, ')') {
        None => Err(EvalError::ParseError),
        Some(q) => Ok((a, b, c, q)),
    }
}

fn e_filters(s: &str, n: usize, ctx: &AppContext, acc: Value, p: usize) -> (r: Result<(Value, usize), EvalError>)
    requires
        n == s@.len(),
    ensures
        agrees(r, p_filters(s@, ctx@, acc@, p as int)),
    decreases s@.len() - p, 1int,
{
    let q = match find_pipe(s, n, p) {
        None => return Ok((acc, p)),
        Some(q) => q,
    };
    let (name, k) = match find_ident(s, n, q) {
        None => return Err(EvalError::ParseError),
        Some(x) => x,
    };
    if k <= p || k > n {
        return Err(EvalError::ParseError);
    }
    if field_text(&name, "bucketSample") {
        match e_args(s, n, ctx, k) {
            Err(e) => Err(e),
            Ok((a, b, c, r)) => {
                if r <= p || r > n {
                    return Err(EvalError::ParseError);
                }
                match bucket_sample(acc, a, b, c) {
                    Err(e) => Err(e),
                    Ok(v) => e_filters(s, n, ctx, v, r),
                }
            },
        }
    } else {
        match simple_filter(ctx, &name, acc) {
            Err(e) => Err(e),
            Ok(v) => e_filters(s, n, ctx, v, k),
        }
    }
}

fn e_postfix(s: &str, n: usize, ctx: &AppContext, i: usize) -> (r: Result<(Value, usize), EvalError>)
    requires
        n == s@.len(),
    ensures
        agrees(r, p_postfix(s@, ctx@, i as int)),
    decreases s@.len() - i, 2int,
{
    match e_primary(s, n, ctx, i) {
        Err(e) => Err(e),
        Ok((v, p)) => {
            if p <= i || p > n {
                return Err(EvalError::ParseError);
            }
            e_filters(s, n, ctx, v, p)
        },
    }
}

fn e_cmp(s: &str, n: usize, ctx: &AppContext, i: usize) -> (r: Result<(Value, usize), EvalError>)
    requires
        n == s@.len(),
    ensures
        agrees(r, p_cmp(s@, ctx@, i as int)),
    decreases s@.len() - i, 3int,
{
    match e_postfix(s, n, ctx, i) {
        Err(e) => Err(e),
        Ok((a, p)) => {
            if p <= i {
                return Err(EvalError::ParseError);
            }
            match find_op(s, n, p) {
                Scan::Op(op, q) => {
                    if q <= i || q > n {
                        return Err(EvalError::ParseError);
                    }
                    match e_postfix(s, n, ctx, q) {
                        Err(e) => Err(e),
                        Ok((b, r)) => match compare_values(op, a, b) {
                            Ok(v) => Ok((v, r)),
                            Err(e) => Err(e),
                        },
                    }
                },
                Scan::Nothing => Ok((a, p)),
            }
        },
    }
}

fn e_not(s: &str, n: usize, ctx: &AppContext, i: usize) -> (r: Result<(Value, usize), EvalError>)
    requires
        n == s@.len(),
    ensures
        agrees(r, p_not(s@, ctx@, i as int)),
    decreases s@.len() - i, 4int,
{
    if i >= n {
        return Err(EvalError::ParseError);
    }
    let c = s.get_char(i);
    if space_char(c) {
        e_not(s, n, ctx, i + 1)
    } else if c == '!' && !(i + 1 < n && s.get_char(i + 1) == '=') {
        match e_not(s, n, ctx, i + 1) {
            Ok((Value::Bool(b), p)) => Ok((Value::Bool(!b), p)),
            Ok((Value::Null, p)) => Ok((Value::Bool(true), p)),
            Ok(_) => Err(EvalError::TypeMismatch),
            Err(e) => Err(e),
        }
    } else {
        e_cmp(s, n, ctx, i)
    }
}

fn e_and_rest(s: &str, n: usize, ctx: &AppContext, acc: Value, p: usize) -> (r: Result<(Value, usize), EvalError>)
    requires
        n == s@.len(),
    ensures
        agrees(r, p_and_rest(s@, ctx@, acc@, p as int)),
    decreases s@.len() - p, 5int,
{
    match find_connective(s, n, p, '&') {
        None => Ok((acc, p)),
        Some(q) => {
            if q <= p || q > n {
                return Err(EvalError::ParseError);
            }
            match e_not(s, n, ctx, q) {
                Err(e) => Err(e),
                Ok((v, r)) => {
                    if r <= p || r > n {
                        return Err(EvalError::ParseError);
                    }
                    match (acc, v) {
                        (Value::Bool(a), Value::Bool(b)) => e_and_rest(s, n, ctx, Value::Bool(a && b), r),
                        _ => Err(EvalError::TypeMismatch),
                    }
                },
            }
        },
    }
}

fn e_and(s: &str, n: usize, ctx: &AppContext, i: usize) -> (r: Result<(Value, usize), EvalError>)
    requires
        n == s@.len(),
    ensures
        agrees(r, p_and(s@, ctx@, i as int)),
    decreases s@.len() - i, 6int,
{
    match e_not(s, n, ctx, i) {
        Err(e) => Err(e),
        Ok((v, p)) => {
            if p <= i || p > n {
                return Err(EvalError::ParseError);
            }
            e_and_rest(s, n, ctx, v, p)
        },
    }
}

fn e_or_rest(s: &str, n: usize, ctx: &AppContext, acc: Value, p: usize) -> (r: Result<(Value, usize), EvalError>)
    requires
        n == s@.len(),
    ensures
        agrees(r, p_or_rest(s@, ctx@, acc@, p as int)),
    decreases s@.len() - p, 7int,
{
    match find_connective(s, n, p, '|') {
        None => Ok((acc, p)),
        Some(q) => {
            if q <= p || q > n {
                return Err(EvalError::ParseError);
            }
            match e_and(s, n, ctx, q) {
                Err(e) => Err(e),
                Ok((v, r)) => {
                    if r <= p || r > n {
                        return Err(EvalError::ParseError);
                    }
                    match (acc, v) {
                        (Value::Bool(a), Value::Bool(b)) => e_or_rest(s, n, ctx, Value::Bool(a || b), r),
                        _ => Err(EvalError::TypeMismatch),
                    }
                },
            }
        },
    }
}

fn e_or(s: &str, n: usize, ctx: &AppContext, i: usize) -> (r: Result<(Value, usize), EvalError>)
    requires
        n == s@.len(),
    ensures
        agrees(r, p_or(s@, ctx@, i as int)),
    decreases s@.len() - i, 8int,
{
    match e_and(s, n, ctx, i) {
        Err(e) => Err(e),
        Ok((v, p)) => {
            if p <= i || p > n {
                return Err(EvalError::ParseError);
            }
            e_or_rest(s, n, ctx, v, p)
        },
    }
}

/// The boolean value of the expression `expr` in the context `ctx`.
pub fn evaluate(expr: &str, ctx: &AppContext) -> (r: Result<bool, EvalError>)
    ensures
        r == eval_expr(expr@, ctx@),
{
    let n = expr.unicode_len();
    match e_or(expr, n, ctx, 0) {
        Err(e) => Err(e),
        Ok((v, p)) => {
            if !is_blank_from(expr, n, p) {
                return Err(EvalError::ParseError);
            }
            match v {
                Value::Bool(b) => Ok(b),
                _ => Err(EvalError::TypeMismatch),
            }
        },
    }
}

/// Whether the targeting expression `targeting` admits the user in the
/// context `ctx`. Evaluation errors count as not admitted.
pub fn is_eligible(targeting: &Option<String>, ctx: &AppContext) -> (r: bool)
    ensures
        r == targeting_allows(*targeting, ctx@),
{
    match targeting {
        None => true,
        Some(t) => {
            let n = t.as_str().unicode_len();
            if is_blank_from(t.as_str(), n, 0) {
                return true;
            }
            match evaluate(t.as_str(), ctx) {
                Ok(b) => b,
                Err(_) => false,
            }
        },
    }
}

} // verus!
