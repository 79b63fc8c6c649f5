//! The `ExecuteProcess` node: lifting a host process-request value into a
//! typed request, and the typed result that comes back.
//!
//! The host presents env as a flat list of strings of even length; an odd
//! length is a hard error. The env mapping is stored sorted by key with the
//! last value for a repeated key winning, so that equivalent maps produce
//! identical node keys. The timeout crosses the boundary as a decimal
//! seconds string and is kept at millisecond granularity.

use vstd::prelude::*;

use crate::digest::{all_dec, is_dec_digit, lift_digest, spec_dec_val, spec_lift_digest,
    parse_u64_decimal};
use crate::values::{spec_project_multi_strs, spec_project_str, spec_project, value_view, Value,
    ValueV};
use crate::vfs::{bytes_eq, Digest, DigestV};

verus! {

/// A typed process-execution request.
#[derive(Debug, PartialEq, Eq)]
pub struct ExecuteProcessRequest {
    pub argv: Vec<String>,
    /// Sorted by key; keys unique.
    pub env: Vec<(String, String)>,
    pub input_files: Digest,
    pub output_files: Vec<String>,
    pub output_directories: Vec<String>,
    /// Milliseconds.
    pub timeout: u64,
    pub description: String,
}

/// Mathematical view of an `ExecuteProcessRequest`.
pub struct ExecuteProcessRequestV {
    pub argv: Seq<Seq<char>>,
    pub env: Seq<(Seq<char>, Seq<char>)>,
    pub input_files: DigestV,
    pub output_files: Seq<Seq<char>>,
    pub output_directories: Seq<Seq<char>>,
    pub timeout: u64,
    pub description: Seq<char>,
}

impl DeepView for ExecuteProcessRequest {
    type V = ExecuteProcessRequestV;

    open spec fn deep_view(&self) -> ExecuteProcessRequestV {
        ExecuteProcessRequestV {
            argv: self.argv.deep_view(),
            env: self.env.deep_view(),
            input_files: self.input_files.deep_view(),
            output_files: self.output_files.deep_view(),
            output_directories: self.output_directories.deep_view(),
            timeout: self.timeout,
            description: self.description@,
        }
    }
}

/// A node that represents executing a process.
#[derive(Debug, PartialEq, Eq)]
pub struct ExecuteProcess(pub ExecuteProcessRequest);

impl DeepView for ExecuteProcess {
    type V = ExecuteProcessRequestV;

    open spec fn deep_view(&self) -> ExecuteProcessRequestV {
        self.0.deep_view()
    }
}

/// What the process runner reports for a finished process.
#[derive(Debug, PartialEq, Eq)]
pub struct FallibleExecuteProcessResult {
    pub stdout: Vec<u8>,
    pub stderr: Vec<u8>,
    pub exit_code: i64,
    pub output_directory: Digest,
}

/// Mathematical view of a `FallibleExecuteProcessResult`.
pub struct FallibleExecuteProcessResultV {
    pub stdout: Seq<u8>,
    pub stderr: Seq<u8>,
    pub exit_code: i64,
    pub output_directory: DigestV,
}

impl DeepView for FallibleExecuteProcessResult {
    type V = FallibleExecuteProcessResultV;

    open spec fn deep_view(&self) -> FallibleExecuteProcessResultV {
        FallibleExecuteProcessResultV {
            stdout: self.stdout@,
            stderr: self.stderr@,
            exit_code: self.exit_code,
            output_directory: self.output_directory.deep_view(),
        }
    }
}

impl Clone for FallibleExecuteProcessResult {
    fn clone(&self) -> (r: Self)
        ensures
            r.deep_view() == self.deep_view(),
    {
        FallibleExecuteProcessResult {
            stdout: crate::values::bytes_clone(&self.stdout),
            stderr: crate::values::bytes_clone(&self.stderr),
            exit_code: self.exit_code,
            output_directory: self.output_directory.clone(),
        }
    }
}

/// The typed result of an `ExecuteProcess` node.
#[derive(Debug, PartialEq, Eq)]
pub struct ProcessResult(pub FallibleExecuteProcessResult);

impl DeepView for ProcessResult {
    type V = FallibleExecuteProcessResultV;

    open spec fn deep_view(&self) -> FallibleExecuteProcessResultV {
        self.0.deep_view()
    }
}

impl Clone for ProcessResult {
    fn clone(&self) -> (r: Self)
        ensures
            r.deep_view() == self.deep_view(),
    {
        ProcessResult(self.0.clone())
    }
}

// --- the canonical env mapping ---

/// Strict lexicographic order on strings, by character code.
pub open spec fn lex_lt(a: Seq<char>, b: Seq<char>) -> bool
    decreases a.len(),
{
    if b.len() == 0 {
        false
    } else if a.len() == 0 {
        true
    } else if a[0] != b[0] {
        (a[0] as int) < (b[0] as int)
    } else {
        lex_lt(a.drop_first(), b.drop_first())
    }
}

/// Compares two strings lexicographically by character code.
#[verifier::loop_isolation(false)]
pub fn str_lex_lt(a: &str, b: &str) -> (r: bool)
    ensures
        r == lex_lt(a@, b@),
{
    let an = a.unicode_len();
    let bn = b.unicode_len();
    let mut i: usize = 0;
    proof {
        assert(a@.skip(0) =~= a@);
        assert(b@.skip(0) =~= b@);
    }
    while i < an && i < bn
        invariant
            i <= an,
            i <= bn,
            an == a@.len(),
            bn == b@.len(),
            lex_lt(a@, b@) == lex_lt(a@.skip(i as int), b@.skip(i as int)),
            forall|j: int| 0 <= j < i ==> a@[j] == b@[j],
        decreases an - i,
    {
        proof {
            assert(a@.skip(i as int)[0] == a@[i as int]);
            assert(b@.skip(i as int)[0] == b@[i as int]);
            assert(a@.skip(i as int).drop_first() =~= a@.skip(i as int + 1));
            assert(b@.skip(i as int).drop_first() =~= b@.skip(i as int + 1));
        }
        let ca = a.get_char(i);
        let cb = b.get_char(i);
        if ca != cb {
            return (ca as u32) < (cb as u32);
        }
        i = i + 1;
    }
    proof {
        assert(a@.skip(i as int).len() == a@.len() - i);
        assert(b@.skip(i as int).len() == b@.len() - i);
    }
    an < bn
}

/// Inserting one binding into a sorted env mapping: before the first larger
/// key, replacing an equal key.
pub open spec fn spec_env_insert(
    env: Seq<(Seq<char>, Seq<char>)>,
    k: Seq<char>,
    v: Seq<char>,
) -> Seq<(Seq<char>, Seq<char>)>
    decreases env.len(),
{
    if env.len() == 0 {
        seq![(k, v)]
    } else if lex_lt(k, env[0].0) {
        seq![(k, v)] + env
    } else if k == env[0].0 {
        seq![(k, v)] + env.drop_first()
    } else {
        seq![env[0]] + spec_env_insert(env.drop_first(), k, v)
    }
}

/// The env mapping of a flat even-length list of strings: pairs inserted in
/// order, so a repeated key keeps its last value.
pub open spec fn spec_env_of(parts: Seq<Seq<char>>) -> Seq<(Seq<char>, Seq<char>)>
    decreases parts.len(),
{
    if parts.len() < 2 {
        Seq::empty()
    } else {
        spec_env_insert(
            spec_env_of(parts.take(parts.len() - 2)),
            parts[parts.len() - 2],
            parts[parts.len() - 1],
        )
    }
}

/// Strictly sorted by key under the lexicographic order — so keys are
/// unique and equal mappings are laid out identically.
pub open spec fn env_sorted(env: Seq<(Seq<char>, Seq<char>)>) -> bool {
    forall|i: int, j: int| #![all_triggers] 0 <= i < j < env.len()
        ==> lex_lt(env[i].0, env[j].0)
}

/// The lexicographic order is transitive.
pub proof fn lemma_lex_lt_trans(a: Seq<char>, b: Seq<char>, c: Seq<char>)
    requires
        lex_lt(a, b),
        lex_lt(b, c),
    ensures
        lex_lt(a, c),
    decreases a.len(),
{
    if a.len() > 0 && b.len() > 0 && c.len() > 0 {
        if a[0] == b[0] && b[0] == c[0] {
            lemma_lex_lt_trans(a.drop_first(), b.drop_first(), c.drop_first());
        }
    }
}

/// The lexicographic order is total: two strings compare one way, the
/// other, or are equal.
pub proof fn lemma_lex_lt_total(a: Seq<char>, b: Seq<char>)
    ensures
        lex_lt(a, b) || lex_lt(b, a) || a == b,
    decreases a.len(),
{
    if a.len() == 0 && b.len() == 0 {
        assert(a =~= b);
    } else if a.len() > 0 && b.len() > 0 && a[0] == b[0] {
        lemma_lex_lt_total(a.drop_first(), b.drop_first());
        assert(lex_lt(a, b) == lex_lt(a.drop_first(), b.drop_first()));
        assert(lex_lt(b, a) == lex_lt(b.drop_first(), a.drop_first()));
        if !lex_lt(a, b) && !lex_lt(b, a) {
            assert(a.drop_first() == b.drop_first());
            assert(a.len() == b.len());
            assert forall|i: int| 0 <= i < a.len() implies a[i] == b[i] by {
                if i >= 1 {
                    assert(a[i] == a.drop_first()[i - 1]);
                    assert(b[i] == b.drop_first()[i - 1]);
                }
            }
            assert(a =~= b);
        }
    }
}

/// Inserting a binding into a sorted mapping keeps it sorted, and every
/// key of the result is the inserted key or one already present.
pub proof fn lemma_env_insert_sorted(
    env: Seq<(Seq<char>, Seq<char>)>,
    k: Seq<char>,
    v: Seq<char>,
)
    requires
        env_sorted(env),
    ensures
        env_sorted(spec_env_insert(env, k, v)),
        forall|j: int| #![all_triggers] 0 <= j < spec_env_insert(env, k, v).len()
            ==> spec_env_insert(env, k, v)[j].0 == k
                || exists|i: int| #![all_triggers] 0 <= i < env.len()
                    && env[i].0 == spec_env_insert(env, k, v)[j].0,
    decreases env.len(),
{
    let r = spec_env_insert(env, k, v);
    if env.len() == 0 {
    } else if lex_lt(k, env[0].0) {
        assert forall|i: int, j: int| #![all_triggers] 0 <= i < j < r.len()
            implies lex_lt(r[i].0, r[j].0) by {
            if i == 0 && j > 1 {
                lemma_lex_lt_trans(k, env[0].0, env[j - 1].0);
            }
        }
    } else if k == env[0].0 {
        assert forall|i: int, j: int| #![all_triggers] 0 <= i < j < r.len()
            implies lex_lt(r[i].0, r[j].0) by {
            if i == 0 {
                assert(r[j].0 == env[j].0);
            }
        }
    } else {
        assert(env_sorted(env.drop_first())) by {
            assert(forall|i: int, j: int| #![all_triggers] 0 <= i < j < env.drop_first().len()
                ==> env.drop_first()[i] == env[i + 1] && env.drop_first()[j] == env[j + 1]);
        }
        lemma_env_insert_sorted(env.drop_first(), k, v);
        let rest = spec_env_insert(env.drop_first(), k, v);
        lemma_lex_lt_total(k, env[0].0);
        assert(lex_lt(env[0].0, k));
        assert forall|i: int, j: int| #![all_triggers] 0 <= i < j < r.len()
            implies lex_lt(r[i].0, r[j].0) by {
            if i == 0 {
                assert(r[j].0 == rest[j - 1].0);
                if rest[j - 1].0 == k {
                } else {
                    let w = choose|w: int| 0 <= w < env.drop_first().len()
                        && env.drop_first()[w].0 == rest[j - 1].0;
                    assert(env[w + 1].0 == rest[j - 1].0);
                    assert(lex_lt(env[0].0, env[w + 1].0));
                }
            } else {
                assert(r[i].0 == rest[i - 1].0 && r[j].0 == rest[j - 1].0);
            }
        }
    }
}

/// The env mapping built from any flat list is canonically laid out:
/// strictly sorted by key, so keys are unique and two equal mappings
/// produce identical node keys.
pub proof fn lemma_env_of_canonical(parts: Seq<Seq<char>>)
    ensures
        env_sorted(spec_env_of(parts)),
    decreases parts.len(),
{
    if parts.len() >= 2 {
        lemma_env_of_canonical(parts.take(parts.len() - 2));
        lemma_env_insert_sorted(
            spec_env_of(parts.take(parts.len() - 2)),
            parts[parts.len() - 2],
            parts[parts.len() - 1],
        );
    }
}

/// Inserts one binding into a sorted env mapping.
fn env_insert(env: Vec<(String, String)>, k: String, v: String) -> (r: Vec<(String, String)>)
    ensures
        r.deep_view() == spec_env_insert(env.deep_view(), k@, v@),
    decreases env@.len(),
{
    let mut env = env;
    if env.len() == 0 {
        let mut r: Vec<(String, String)> = Vec::new();
        r.push((k, v));
        proof {
            assert(r.deep_view() =~= spec_env_insert(env.deep_view(), k@, v@));
        }
        return r;
    }
    let ghost ev = env.deep_view();
    if str_lex_lt(k.as_str(), env[0].0.as_str()) {
        let mut r = env;
        r.insert(0, (k, v));
        proof {
            assert(r.deep_view() =~= seq![(k@, v@)] + ev);
        }
        return r;
    }
    if k == env[0].0 {
        let mut r = env;
        r.remove(0);
        r.insert(0, (k, v));
        proof {
            assert(r.deep_view() =~= seq![(k@, v@)] + ev.drop_first());
        }
        return r;
    }
    let head = env.remove(0);
    let ghost restv = env.deep_view();
    proof {
        assert(restv =~= ev.drop_first());
    }
    let mut rest = env_insert(env, k, v);
    rest.insert(0, head);
    proof {
        assert(rest.deep_view() =~= seq![ev[0]] + spec_env_insert(ev.drop_first(), k@, v@));
    }
    rest
}

/// Builds the canonical env mapping from the flat even-length list.
#[verifier::loop_isolation(false)]
fn env_of(parts: &Vec<String>) -> (r: Vec<(String, String)>)
    requires
        parts@.len() % 2 == 0,
    ensures
        r.deep_view() == spec_env_of(parts.deep_view()),
{
    let ghost pv = parts.deep_view();
    let mut env: Vec<(String, String)> = Vec::new();
    let mut i: usize = 0;
    proof {
        assert(pv.take(0) =~= Seq::<Seq<char>>::empty());
        assert(env.deep_view() =~= spec_env_of(pv.take(0)));
    }
    while i + 1 < parts.len()
        invariant
            i <= parts@.len(),
            i % 2 == 0,
            pv.len() == parts@.len(),
            pv.len() % 2 == 0,
            env.deep_view() == spec_env_of(pv.take(i as int)),
        decreases parts.len() - i,
    {
        let k = parts[i].clone();
        let v = parts[i + 1].clone();
        env = env_insert(env, k, v);
        proof {
            let t = pv.take(i as int + 2);
            assert(t.take(t.len() - 2) =~= pv.take(i as int));
            assert(t[t.len() - 2] == pv[i as int]);
            assert(t[t.len() - 1] == pv[i as int + 1]);
        }
        i = i + 2;
    }
    proof {
        assert(pv.take(pv.len() as int) =~= pv);
    }
    env
}

// --- the timeout, in seconds with millisecond granularity ---

/// Index of the first `.` in a string, `-1` if there is none.
pub open spec fn find_dot(s: Seq<char>) -> int
    decreases s.len(),
{
    if s.len() == 0 {
        -1
    } else if s[0] == '.' {
        0
    } else if find_dot(s.drop_first()) < 0 {
        -1
    } else {
        find_dot(s.drop_first()) + 1
    }
}

/// The value of a decimal digit.
pub open spec fn dec_digit_val(c: char) -> int {
    c as int - '0' as int
}

/// The milliseconds a fraction-of-a-second digit string denotes, at
/// millisecond granularity: digits beyond the third are ignored.
pub open spec fn spec_frac_millis(f: Seq<char>) -> int {
    100 * dec_digit_val(f[0]) + (if f.len() > 1 {
        10 * dec_digit_val(f[1])
    } else {
        0
    }) + (if f.len() > 2 {
        dec_digit_val(f[2])
    } else {
        0
    })
}

/// The largest whole-second count whose milliseconds fit in 64 bits.
pub open spec fn max_timeout_secs() -> int {
    (u64::MAX - 999) as int / 1000
}

/// The milliseconds a decimal seconds string denotes: whole seconds,
/// optionally a `.` and a nonempty digit fraction kept to millisecond
/// granularity. `None` for anything else, or when the count overflows.
pub open spec fn spec_timeout_millis(s: Seq<char>) -> Option<int> {
    let d = find_dot(s);
    if d < 0 {
        if s.len() > 0 && all_dec(s) && spec_dec_val(s) <= max_timeout_secs() {
            Some(spec_dec_val(s) * 1000)
        } else {
            None
        }
    } else {
        let ip = s.take(d);
        let fp = s.skip(d + 1);
        if ip.len() > 0 && all_dec(ip) && fp.len() > 0 && all_dec(fp)
            && spec_dec_val(ip) <= max_timeout_secs() {
            Some(spec_dec_val(ip) * 1000 + spec_frac_millis(fp))
        } else {
            None
        }
    }
}

/// Parses a decimal seconds string into milliseconds.
///
/// Succeeds exactly when the string is whole digits, optionally followed by
/// a `.` and a nonempty digit fraction, and the whole-second count fits;
/// the fraction is kept to millisecond granularity.
#[verifier::loop_isolation(false)]
pub fn parse_timeout_millis(s: &str) -> (r: Result<u64, String>)
    ensures
        match r {
            Ok(n) => spec_timeout_millis(s@) == Some(n as int),
            Err(_) => spec_timeout_millis(s@) is None,
        },
{
    let n = s.unicode_len();
    let mut dot: usize = 0;
    let mut has_dot = false;
    proof {
        assert(s@.skip(0) =~= s@);
    }
    while dot < n && !has_dot
        invariant
            dot <= n,
            n == s@.len(),
            !has_dot ==> (find_dot(s@) < 0 <==> find_dot(s@.skip(dot as int)) < 0),
            !has_dot ==> (find_dot(s@) >= 0
                ==> find_dot(s@) == dot + find_dot(s@.skip(dot as int))),
            !has_dot ==> forall|j: int| 0 <= j < dot ==> s@[j] != '.',
            has_dot ==> dot < n && s@[dot as int] == '.'
                && (forall|j: int| 0 <= j < dot ==> s@[j] != '.'),
        decreases n - dot + (if has_dot { 0int } else { 1int }),
    {
        proof {
            assert(s@.skip(dot as int)[0] == s@[dot as int]);
            assert(s@.skip(dot as int).drop_first() =~= s@.skip(dot as int + 1));
        }
        if s.get_char(dot) == '.' {
            has_dot = true;
        } else {
            dot = dot + 1;
        }
    }
    proof {
        if !has_dot {
            assert(s@.skip(n as int).len() == 0);
            assert(find_dot(s@) < 0);
        } else {
            lemma_find_dot_at(s@, dot as int);
        }
    }
    let limit: u64 = (u64::MAX - 999) / 1000;
    if !has_dot {
        let secs = match parse_u64_decimal(s) {
            Ok(v) => v,
            Err(e) => {
                return Err(e);
            },
        };
        if secs > limit {
            return Err("Timeout overflows".to_owned());
        }
        return Ok(secs * 1000);
    }
    if dot == 0 || dot + 1 >= n {
        return Err("Timeout was not a decimal seconds count".to_owned());
    }
    let ip = s.substring_char(0, dot);
    proof {
        assert(ip@ == s@.subrange(0, dot as int));
        assert(s@.subrange(0, dot as int) =~= s@.take(dot as int));
    }
    let secs = match parse_u64_decimal(ip) {
        Ok(v) => v,
        Err(e) => {
            return Err(e);
        },
    };
    if secs > limit {
        return Err("Timeout overflows".to_owned());
    }
    let ghost fp = s@.skip(dot as int + 1);
    let mut j: usize = dot + 1;
    while j < n
        invariant
            dot + 1 <= j <= n,
            n == s@.len(),
            fp == s@.skip(dot as int + 1),
            forall|i: int| dot + 1 <= i < j ==> is_dec_digit(#[trigger] s@[i]),
        decreases n - j,
    {
        let c = s.get_char(j);
        let u = c as u32;
        if !(48 <= u && u <= 57) {
            proof {
                assert(fp[j - dot - 1] == s@[j as int]);
            }
            return Err("Timeout fraction was not digits".to_owned());
        }
        j = j + 1;
    }
    proof {
        assert(forall|i: int| 0 <= i < fp.len() ==> fp[i] == #[trigger] s@[i + dot + 1]);
        assert(all_dec(fp));
    }
    proof {
        assert(fp[0] == s@[dot as int + 1] && is_dec_digit(s@[dot as int + 1]));
        if n - dot > 2 {
            assert(fp[1] == s@[dot as int + 2] && is_dec_digit(s@[dot as int + 2]));
        }
        if n - dot > 3 {
            assert(fp[2] == s@[dot as int + 3] && is_dec_digit(s@[dot as int + 3]));
        }
    }
    let f0 = (s.get_char(dot + 1) as u32 - 48) as u64;
    let f1: u64 = if n - dot > 2 { (s.get_char(dot + 2) as u32 - 48) as u64 } else { 0 };
    let f2: u64 = if n - dot > 3 { (s.get_char(dot + 3) as u32 - 48) as u64 } else { 0 };
    Ok(secs * 1000 + 100 * f0 + 10 * f1 + f2)
}

/// If no `.` comes before position `d` and one sits at `d`, the first `.`
/// is at `d`.
proof fn lemma_find_dot_at(s: Seq<char>, d: int)
    requires
        0 <= d < s.len(),
        s[d] == '.',
        forall|j: int| 0 <= j < d ==> s[j] != '.',
    ensures
        find_dot(s) == d,
    decreases d,
{
    if d > 0 {
        lemma_find_dot_at(s.drop_first(), d - 1);
    }
}

// --- lifting the host request value ---

/// What lifting a host process-request value yields, if all its fields are
/// present and well formed: the argv, the canonical env mapping, the input
/// digest, the output paths, the timeout in milliseconds, the description.
pub open spec fn spec_lift_process(v: ValueV) -> Option<ExecuteProcessRequestV> {
    let envp = spec_project_multi_strs(v, "env"@);
    let argv = spec_project_multi_strs(v, "argv"@);
    let of = spec_project_multi_strs(v, "output_files"@);
    let od = spec_project_multi_strs(v, "output_directories"@);
    let ts = spec_project_str(v, "timeout_seconds"@);
    let desc = spec_project_str(v, "description"@);
    let inf = spec_project(v, "input_files"@);
    if envp is Some && envp.unwrap().len() % 2 == 0 && argv is Some && of is Some && od is Some
        && ts is Some && spec_timeout_millis(ts.unwrap()) is Some && desc is Some && inf is Some
        && spec_lift_digest(inf.unwrap()) is Some {
        Some(ExecuteProcessRequestV {
            argv: argv.unwrap(),
            env: spec_env_of(envp.unwrap()),
            input_files: spec_lift_digest(inf.unwrap()).unwrap(),
            output_files: of.unwrap(),
            output_directories: od.unwrap(),
            timeout: spec_timeout_millis(ts.unwrap()).unwrap() as u64,
            description: desc.unwrap(),
        })
    } else {
        None
    }
}

impl ExecuteProcess {
    /// Lifts a host process-request value into an `ExecuteProcess` node.
    ///
    /// Succeeds exactly when every field is present and well formed; in
    /// particular an env list of odd length is rejected.
    pub fn lift(value: &Value) -> (r: Result<ExecuteProcess, String>)
        ensures
            match r {
                Ok(p) => spec_lift_process(value_view(*value)) == Some(p.deep_view()),
                Err(_) => spec_lift_process(value_view(*value)) is None,
            },
            (spec_project_multi_strs(value_view(*value), "env"@) matches Some(parts)
                && parts.len() % 2 != 0) ==> (r matches Err(m)
                && m@ == "Error parsing env: odd number of parts"@),
    {
        let env_var_parts = match crate::values::project_multi_strs(value, "env") {
            Some(p) => p,
            None => {
                return Err("Error parsing env: missing or not a list of strings".to_owned());
            },
        };
        if env_var_parts.len() % 2 != 0 {
            return Err("Error parsing env: odd number of parts".to_owned());
        }
        let env = env_of(&env_var_parts);
        let argv = match crate::values::project_multi_strs(value, "argv") {
            Some(p) => p,
            None => {
                return Err("Error parsing argv: missing or not a list of strings".to_owned());
            },
        };
        let input_files_val = match crate::values::find_field(value, "input_files") {
            Some(v) => v,
            None => {
                return Err("Error parsing digest: missing input_files".to_owned());
            },
        };
        let digest = match lift_digest(input_files_val) {
            Ok(d) => d,
            Err(e) => {
                let mut msg = "Error parsing digest: ".to_owned();
                msg.append(e.as_str());
                return Err(msg);
            },
        };
        let output_files = match crate::values::project_multi_strs(value, "output_files") {
            Some(p) => p,
            None => {
                return Err("Error parsing output_files".to_owned());
            },
        };
        let output_directories = match crate::values::project_multi_strs(
            value,
            "output_directories",
        ) {
            Some(p) => p,
            None => {
                return Err("Error parsing output_directories".to_owned());
            },
        };
        let timeout_str = match crate::values::project_str(value, "timeout_seconds") {
            Some(s) => s,
            None => {
                return Err("Timeout was missing".to_owned());
            },
        };
        let timeout = match parse_timeout_millis(timeout_str.as_str()) {
            Ok(t) => t,
            Err(e) => {
                return Err(e);
            },
        };
        let description = match crate::values::project_str(value, "description") {
            Some(s) => s.clone(),
            None => {
                return Err("Description was missing".to_owned());
            },
        };
        Ok(ExecuteProcess(ExecuteProcessRequest {
            argv,
            env,
            input_files: digest,
            output_files,
            output_directories,
            timeout,
            description,
        }))
    }
}

/// The host value of a finished process: a process-result object carrying
/// stdout, stderr, the exit code, and the output directory's digest.
pub open spec fn spec_store_process_result(
    t: crate::values::Types,
    r: FallibleExecuteProcessResultV,
) -> ValueV {
    ValueV::ObjV(t.construct_process_result, seq![
        crate::values::FieldV { name: "stdout"@, value: ValueV::BytesV(r.stdout) },
        crate::values::FieldV { name: "stderr"@, value: ValueV::BytesV(r.stderr) },
        crate::values::FieldV { name: "exit_code"@, value: ValueV::IntV(r.exit_code) },
        crate::values::FieldV {
            name: "output_directory"@,
            value: crate::snapshot::spec_store_directory(t, r.output_directory),
        },
    ])
}

/// Packs a finished process into its host value.
pub fn store_process_result(
    types: &crate::values::Types,
    item: &FallibleExecuteProcessResult,
) -> (r: Value)
    requires
        crate::vfs::wf_digest(item.output_directory.deep_view()),
    ensures
        crate::values::value_view(r) == spec_store_process_result(*types, item.deep_view()),
{
    broadcast use crate::values::group_view_lemmas;

    let mut fields: Vec<crate::values::Field> = Vec::new();
    fields.push(crate::values::Field {
        name: "stdout".to_owned(),
        value: Value::BytesV(crate::values::bytes_clone(&item.stdout)),
    });
    fields.push(crate::values::Field {
        name: "stderr".to_owned(),
        value: Value::BytesV(crate::values::bytes_clone(&item.stderr)),
    });
    fields.push(crate::values::Field {
        name: "exit_code".to_owned(),
        value: Value::IntV(item.exit_code),
    });
    fields.push(crate::values::Field {
        name: "output_directory".to_owned(),
        value: crate::snapshot::Snapshot::store_directory(types, &item.output_directory),
    });
    let r = Value::ObjV(types.construct_process_result, fields);
    proof {
        assert(crate::values::fields_view(fields@)[0]
            == crate::values::field_view(fields@[0]));
        assert(crate::values::fields_view(fields@)[1]
            == crate::values::field_view(fields@[1]));
        assert(crate::values::fields_view(fields@)[2]
            == crate::values::field_view(fields@[2]));
        assert(crate::values::fields_view(fields@)[3]
            == crate::values::field_view(fields@[3]));
        assert(crate::values::value_view(r)->ObjV_1
            =~= spec_store_process_result(*types, item.deep_view())->ObjV_1);
    }
    r
}

// --- comparing and copying requests (for the memo store) ---

/// Compares two string lists; true exactly when their views are equal.
#[verifier::loop_isolation(false)]
pub fn strings_eq(a: &Vec<String>, b: &Vec<String>) -> (r: bool)
    ensures
        r == (a.deep_view() == b.deep_view()),
{
    if a.len() != b.len() {
        proof {
            assert(a.deep_view().len() == a@.len());
            assert(b.deep_view().len() == b@.len());
        }
        return false;
    }
    let mut i: usize = 0;
    while i < a.len()
        invariant
            i <= a.len(),
            a@.len() == b@.len(),
            forall|j: int| #![all_triggers] 0 <= j < i ==> a.deep_view()[j] == b.deep_view()[j],
        decreases a.len() - i,
    {
        if !(a[i] == b[i]) {
            proof {
                assert(a.deep_view()[i as int] != b.deep_view()[i as int]);
            }
            return false;
        }
        i = i + 1;
    }
    proof {
        assert(a.deep_view() =~= b.deep_view());
    }
    true
}

/// Copies a string list; the copy has the same mathematical view.
#[verifier::loop_isolation(false)]
pub fn strings_clone(a: &Vec<String>) -> (r: Vec<String>)
    ensures
        r.deep_view() == a.deep_view(),
{
    let mut r: Vec<String> = Vec::new();
    let mut i: usize = 0;
    while i < a.len()
        invariant
            i <= a.len(),
            r@.len() == i,
            forall|j: int| #![all_triggers] 0 <= j < i ==> r@[j]@ == a@[j]@,
        decreases a.len() - i,
    {
        r.push(a[i].clone());
        i = i + 1;
    }
    proof {
        assert(r.deep_view() =~= a.deep_view());
    }
    r
}

/// Compares two env mappings; true exactly when their views are equal.
#[verifier::loop_isolation(false)]
pub fn env_eq(a: &Vec<(String, String)>, b: &Vec<(String, String)>) -> (r: bool)
    ensures
        r == (a.deep_view() == b.deep_view()),
{
    if a.len() != b.len() {
        proof {
            assert(a.deep_view().len() == a@.len());
            assert(b.deep_view().len() == b@.len());
        }
        return false;
    }
    let mut i: usize = 0;
    while i < a.len()
        invariant
            i <= a.len(),
            a@.len() == b@.len(),
            forall|j: int| #![all_triggers] 0 <= j < i ==> a.deep_view()[j] == b.deep_view()[j],
        decreases a.len() - i,
    {
        if !(a[i].0 == b[i].0) || !(a[i].1 == b[i].1) {
            proof {
                assert(a.deep_view()[i as int] != b.deep_view()[i as int]);
            }
            return false;
        }
        i = i + 1;
    }
    proof {
        assert(a.deep_view() =~= b.deep_view());
    }
    true
}

/// Copies an env mapping; the copy has the same mathematical view.
#[verifier::loop_isolation(false)]
pub fn env_clone(a: &Vec<(String, String)>) -> (r: Vec<(String, String)>)
    ensures
        r.deep_view() == a.deep_view(),
{
    let mut r: Vec<(String, String)> = Vec::new();
    let mut i: usize = 0;
    while i < a.len()
        invariant
            i <= a.len(),
            r@.len() == i,
            forall|j: int| #![all_triggers] 0 <= j < i ==> r@[j].0@ == a@[j].0@
                && r@[j].1@ == a@[j].1@,
        decreases a.len() - i,
    {
        let e = &a[i];
        r.push((e.0.clone(), e.1.clone()));
        i = i + 1;
    }
    proof {
        assert(r.deep_view() =~= a.deep_view());
    }
    r
}

/// Compares two digests; true exactly when their views are equal.
pub fn digest_eq(a: &Digest, b: &Digest) -> (r: bool)
    ensures
        r == (a.deep_view() == b.deep_view()),
{
    bytes_eq(&a.fingerprint, &b.fingerprint)
        && a.serialized_bytes_length == b.serialized_bytes_length
}

/// Compares two process requests; true exactly when their views are equal.
pub fn request_eq(a: &ExecuteProcessRequest, b: &ExecuteProcessRequest) -> (r: bool)
    ensures
        r == (a.deep_view() == b.deep_view()),
{
    strings_eq(&a.argv, &b.argv) && env_eq(&a.env, &b.env)
        && digest_eq(&a.input_files, &b.input_files)
        && strings_eq(&a.output_files, &b.output_files)
        && strings_eq(&a.output_directories, &b.output_directories)
        && a.timeout == b.timeout && a.description == b.description
}

/// Copies a process request; the copy has the same mathematical view.
pub fn request_clone(a: &ExecuteProcessRequest) -> (r: ExecuteProcessRequest)
    ensures
        r.deep_view() == a.deep_view(),
{
    ExecuteProcessRequest {
        argv: strings_clone(&a.argv),
        env: env_clone(&a.env),
        input_files: a.input_files.clone(),
        output_files: strings_clone(&a.output_files),
        output_directories: strings_clone(&a.output_directories),
        timeout: a.timeout,
        description: a.description.clone(),
    }
}

} // verus!
