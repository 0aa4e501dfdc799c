use vstd::prelude::*;

verus! {

/// True when `t` begins with a dash.
pub open spec fn starts_with_dash(t: Seq<char>) -> bool {
    t.len() > 0 && t[0] == '-'
}

/// True when `t` is written exactly like one of the flags in `takers`.
pub open spec fn is_value_taking(t: Seq<char>, takers: Seq<Seq<char>>) -> bool {
    takers.contains(t)
}

/// The position where the inner command begins, scanning `args` from
/// position `i` with `skip` tokens still owed as values to earlier flags.
///
/// A token is consumed as a wrapper token when it is owed as a value, when
/// it is a registered value-taking flag (which then owes one more value),
/// or when it begins with a dash. The first token consumed by none of these
/// rules starts the inner command; when every token is consumed, the inner
/// command is empty.
pub open spec fn spec_split_index(args: Seq<Seq<char>>, takers: Seq<Seq<char>>, i: int, skip: nat) -> int
    decreases args.len() - i,
{
    if i < 0 || i >= args.len() {
        args.len() as int
    } else if skip > 0 {
        spec_split_index(args, takers, i + 1, (skip - 1) as nat)
    } else if is_value_taking(args[i], takers) {
        spec_split_index(args, takers, i + 1, skip + 1)
    } else if starts_with_dash(args[i]) {
        spec_split_index(args, takers, i + 1, skip)
    } else {
        i
    }
}

/// The partition of one raw command line: the tokens consumed by the
/// wrapper's own flag parser, the inner command to run in the container,
/// and the position where the inner command begins.
pub struct SplitResult {
    pub wrapper_tokens: Vec<String>,
    pub inner_command: Vec<String>,
    pub split_index: usize,
}

fn token_is_value_taking(t: &String, takers: &Vec<String>) -> (r: bool)
    ensures
        r == is_value_taking(t@, takers.deep_view()),
{
    let mut j: usize = 0;
    while j < takers.len()
        invariant
            j <= takers.len(),
            forall|k: int| 0 <= k < j ==> takers.deep_view()[k] != t@,
        decreases takers.len() - j,
    {
        if takers[j] == *t {
            assert(takers.deep_view()[j as int] == t@);
            return true;
        }
        j = j + 1;
    }
    assert(forall|k: int|
        0 <= k < takers.deep_view().len() ==> takers.deep_view()[k] != t@);
    false
}

fn token_starts_with_dash(t: &String) -> (r: bool)
    ensures
        r == starts_with_dash(t@),
{
    let s = t.as_str();
    if s.unicode_len() == 0 {
        false
    } else {
        s.get_char(0) == '-'
    }
}

/// Splits a raw command line into the tokens meant for the wrapper's flag
/// parser and the inner command to forward verbatim into the container.
///
/// Tokens are scanned left to right; a token is consumed for the wrapper
/// while it begins with a dash, is one of the `value_taking` flags, or is
/// owed as the value of the preceding value-taking flag. The first token
/// consumed by none of these rules begins the inner command, and every
/// token from there on belongs to it, dashes and all. A value-taking flag
/// standing last consumes no value, and an empty command line yields two
/// empty halves. No token is dropped, duplicated or reordered: the two
/// halves concatenate back to `args` exactly.
///
/// The dash heuristic is ambiguous by nature: an inner command whose own
/// first tokens begin with dashes cannot be told apart from wrapper
/// flags. The first plain token is the documented tie-break, a known
/// limitation rather than something to guess around.
pub fn split_args(args: &Vec<String>, value_taking: &Vec<String>) -> (r: SplitResult)
    ensures
        r.split_index <= args@.len(),
        r.split_index as int == spec_split_index(args.deep_view(), value_taking.deep_view(), 0, 0),
        r.wrapper_tokens@ == args@.subrange(0, r.split_index as int),
        r.inner_command@ == args@.subrange(r.split_index as int, args@.len() as int),
        r.wrapper_tokens@ + r.inner_command@ == args@,
{
    let n = args.len();
    let mut i: usize = 0;
    let mut skip: usize = 0;
    while i < n
        invariant
            n == args@.len(),
            i <= n,
            skip <= n,
            spec_split_index(args.deep_view(), value_taking.deep_view(), 0, 0)
                == spec_split_index(args.deep_view(), value_taking.deep_view(), i as int, skip as nat),
        ensures
            spec_split_index(args.deep_view(), value_taking.deep_view(), 0, 0) == i as int,
            i <= n,
        decreases n - i,
    {
        if skip > 0 {
            skip = skip - 1;
        } else if token_is_value_taking(&args[i], value_taking) {
            skip = skip + 1;
        } else if !token_starts_with_dash(&args[i]) {
            assert(spec_split_index(args.deep_view(), value_taking.deep_view(), i as int, skip as nat)
                == i as int);
            break ;
        }
        i = i + 1;
    }
    let split_index = i;
    let mut wrapper_tokens: Vec<String> = Vec::new();
    let mut j: usize = 0;
    while j < split_index
        invariant
            split_index <= args@.len(),
            j <= split_index,
            wrapper_tokens@ == args@.subrange(0, j as int),
        decreases split_index - j,
    {
        wrapper_tokens.push(args[j].clone());
        proof {
            assert(args@.subrange(0, j + 1) =~= args@.subrange(0, j as int).push(args@[j as int]));
        }
        j = j + 1;
    }
    let mut inner_command: Vec<String> = Vec::new();
    let mut k: usize = split_index;
    while k < n
        invariant
            n == args@.len(),
            split_index <= k <= n,
            inner_command@ == args@.subrange(split_index as int, k as int),
        decreases n - k,
    {
        inner_command.push(args[k].clone());
        proof {
            assert(args@.subrange(split_index as int, k + 1) =~= args@.subrange(
                split_index as int,
                k as int,
            ).push(args@[k as int]));
        }
        k = k + 1;
    }
    proof {
        assert(args@.subrange(0, split_index as int) + args@.subrange(
            split_index as int,
            args@.len() as int,
        ) =~= args@);
    }
    SplitResult { wrapper_tokens, inner_command, split_index }
}

/// Whether a wrapper flag counts as passed: its parser must have matched it
/// at a position before the one where the inner command begins, so that a
/// flag-looking token inside the inner command is never honoured.
pub fn arg_passed(flag_index: Option<usize>, input_command_index: usize) -> (r: bool)
    ensures
        r == (match flag_index {
            Some(fi) => fi < input_command_index,
            None => false,
        }),
{
    match flag_index {
        Some(fi) => fi < input_command_index,
        None => false,
    }
}

/// The value a wrapper flag supplies: the matched value when the flag was
/// passed before the inner command and carries one, the default otherwise.
pub fn arg_value(passed: bool, value: Option<&String>, default_value: &str) -> (r: String)
    ensures
        r@ == (match value {
            Some(v) => if passed {
                v@
            } else {
                default_value@
            },
            None => default_value@,
        }),
{
    if !passed {
        return default_value.to_owned();
    }
    match value {
        Some(v) => v.clone(),
        None => default_value.to_owned(),
    }
}

} // verus!
