//! Pure derivation rules applied to a started message's payload.
//!
//! Three rules compute the display fields of a fresh record: the compiler
//! short name is guessed from the raw command line, only `Explicit` input
//! bindings survive into the primary input list, and every output binding is
//! kept. All three are total: none of them can abort ingestion.

use vstd::prelude::*;

use crate::messages::{BuildEdgeInput, BuildEdgeOutput, InputEdgeType, InputView, OutputView};

verus! {

/// Index of the first space in `s`, if `s` holds one.
pub open spec fn first_space(s: Seq<char>) -> Option<int>
    decreases s.len(),
{
    if s.len() == 0 {
        None
    } else if s[0] == ' ' {
        Some(0int)
    } else {
        match first_space(s.drop_first()) {
            None => None,
            Some(i) => Some(i + 1),
        }
    }
}

/// Index of the last `/` in `s`, if `s` holds one.
pub open spec fn last_slash(s: Seq<char>) -> Option<int>
    decreases s.len(),
{
    if s.len() == 0 {
        None
    } else if s[s.len() - 1] == '/' {
        Some(s.len() - 1)
    } else {
        last_slash(s.drop_last())
    }
}

/// `first_space` finds exactly the first space: the index it returns holds a
/// space with none before it, and it returns nothing only on a space-free
/// sequence.
pub proof fn lemma_first_space_spec(s: Seq<char>)
    ensures
        match first_space(s) {
            Some(i) => 0 <= i < s.len() && s[i] == ' ' && (forall|j: int|
                0 <= j < i ==> s[j] != ' '),
            None => forall|j: int| 0 <= j < s.len() ==> s[j] != ' ',
        },
    decreases s.len(),
{
    if s.len() == 0 {
    } else if s[0] == ' ' {
    } else {
        lemma_first_space_spec(s.drop_first());
        match first_space(s.drop_first()) {
            None => {
                assert forall|j: int| 0 <= j < s.len() implies s[j] != ' ' by {
                    if j > 0 {
                        assert(s.drop_first()[j - 1] == s[j]);
                    }
                }
            },
            Some(i) => {
                assert(s.drop_first()[i] == s[i + 1]);
                assert forall|j: int| 0 <= j < i + 1 implies s[j] != ' ' by {
                    if j > 0 {
                        assert(s.drop_first()[j - 1] == s[j]);
                    }
                }
            },
        }
    }
}

/// `last_slash` finds exactly the last `/`: the index it returns holds a `/`
/// with none after it, and it returns nothing only on a slash-free sequence.
pub proof fn lemma_last_slash_spec(s: Seq<char>)
    ensures
        match last_slash(s) {
            Some(i) => 0 <= i < s.len() && s[i] == '/' && (forall|j: int|
                i < j < s.len() ==> s[j] != '/'),
            None => forall|j: int| 0 <= j < s.len() ==> s[j] != '/',
        },
    decreases s.len(),
{
    if s.len() == 0 {
    } else if s[s.len() - 1] == '/' {
    } else {
        lemma_last_slash_spec(s.drop_last());
        assert forall|j: int| 0 <= j < s.len() - 1 implies s.drop_last()[j] == s[j] by {}
    }
}

/// First whitespace-separated token of a command line. A command with no
/// space yields no token: the heuristic demands a separated executable.
pub open spec fn exe_token(cmd: Seq<char>) -> Option<Seq<char>> {
    match first_space(cmd) {
        None => None,
        Some(i) => Some(cmd.take(i)),
    }
}

/// Final path component of a token: the text after its last `/`, or the whole
/// token when it has no `/`.
pub open spec fn base_name(tok: Seq<char>) -> Seq<char> {
    match last_slash(tok) {
        None => tok,
        Some(i) => tok.skip(i + 1),
    }
}

/// The compiler-name heuristic's answer: the final path component of the
/// first whitespace-separated token, or nothing when the command has no such
/// token or the component is empty.
pub open spec fn spec_guess_compiler(cmd: Seq<char>) -> Option<Seq<char>> {
    match exe_token(cmd) {
        None => None,
        Some(tok) => if base_name(tok).len() == 0 {
            None
        } else {
            Some(base_name(tok))
        },
    }
}

/// The derived compiler display name: the heuristic's answer, or the literal
/// placeholder `"???"` when it has none. Total over every command text.
pub open spec fn spec_compiler_name(cmd: Seq<char>) -> Seq<char> {
    match spec_guess_compiler(cmd) {
        None => "???"@,
        Some(name) => name,
    }
}

/// Law: compiler-name derivation is total. For every possible command text —
/// empty, without whitespace, or with a first token lacking any path
/// separator — the derived display name is either the nonempty final path
/// component of the first token or the literal placeholder `"???"`; the
/// derivation has no failing case that could abort ingestion.
pub proof fn lemma_compiler_name_total(cmd: Seq<char>)
    ensures
        match spec_guess_compiler(cmd) {
            Some(name) => spec_compiler_name(cmd) == name && name.len() > 0 && (match exe_token(
                cmd,
            ) {
                Some(tok) => name == base_name(tok),
                None => false,
            }),
            None => spec_compiler_name(cmd) == "???"@,
        },
{
}

/// Best-effort extraction of the executable's short name from a raw command
/// line: split at the first space, then keep the text after the last path
/// separator of that first token. No shell quoting or escaping is understood;
/// the caller substitutes the `"???"` placeholder when this returns nothing.
pub fn guess_compiler(command: &str) -> (r: Option<String>)
    ensures
        match spec_guess_compiler(command@) {
            None => r is None,
            Some(name) => r matches Some(g) && g@ == name,
        },
{
    let n: usize = command.unicode_len();
    let mut i: usize = 0;
    loop
        invariant
            0 <= i <= n,
            n == command@.len(),
            forall|j: int| 0 <= j < i ==> command@[j] != ' ',
        ensures
            i < n,
            command@[i as int] == ' ',
            forall|j: int| 0 <= j < i ==> command@[j] != ' ',
        decreases n - i,
    {
        if i == n {
            proof {
                lemma_first_space_spec(command@);
            }
            return None;
        }
        if command.get_char(i) == ' ' {
            break;
        }
        i += 1;
    }
    proof {
        lemma_first_space_spec(command@);
        assert(first_space(command@) == Some(i as int));
    }
    let ghost tok = command@.take(i as int);
    let mut last: Option<usize> = None;
    let mut j: usize = 0;
    while j < i
        invariant
            0 <= j <= i <= n,
            n == command@.len(),
            match last {
                None => forall|k: int| 0 <= k < j ==> command@[k] != '/',
                Some(p) => p < j && command@[p as int] == '/' && (forall|k: int|
                    p < k < j ==> command@[k] != '/'),
            },
        decreases i - j,
    {
        if command.get_char(j) == '/' {
            last = Some(j);
        }
        j += 1;
    }
    proof {
        lemma_last_slash_spec(tok);
        assert forall|k: int| 0 <= k < i implies tok[k] == command@[k] by {}
        match last {
            None => {
                assert(last_slash(tok) is None);
            },
            Some(p) => {
                assert(tok[p as int] == '/');
                assert(last_slash(tok) == Some(p as int));
            },
        }
    }
    let start: usize = match last {
        None => 0,
        Some(p) => p + 1,
    };
    if start == i {
        return None;
    }
    let name = command.substring_char(start, i);
    proof {
        assert(base_name(tok) =~= command@.subrange(start as int, i as int));
    }
    Some(String::from_str(name))
}

/// Keep only the `Explicit`-tagged input paths, in their original order.
pub open spec fn explicit_input_paths(inputs: Seq<InputView>) -> Seq<Seq<char>>
    decreases inputs.len(),
{
    if inputs.len() == 0 {
        Seq::empty()
    } else {
        let rest = explicit_input_paths(inputs.drop_first());
        if inputs.first().in_type is Explicit {
            seq![inputs.first().path] + rest
        } else {
            rest
        }
    }
}

/// All output paths, in their original order, regardless of tag.
pub open spec fn all_output_paths(outputs: Seq<OutputView>) -> Seq<Seq<char>>
    decreases outputs.len(),
{
    if outputs.len() == 0 {
        Seq::empty()
    } else {
        seq![outputs.first().path] + all_output_paths(outputs.drop_first())
    }
}

/// Picks out the `Explicit`-tagged bindings.
pub open spec fn explicit_pred() -> spec_fn(InputView) -> bool {
    |b: InputView| b.in_type is Explicit
}

/// Reads an input binding's path.
pub open spec fn input_path_of() -> spec_fn(InputView) -> Seq<char> {
    |b: InputView| b.path
}

/// Reads an output binding's path.
pub open spec fn output_path_of() -> spec_fn(OutputView) -> Seq<char> {
    |b: OutputView| b.path
}

/// The canonical statement of input filtering: the `path` fields of the
/// `Explicit`-tagged bindings, in their original relative order.
pub open spec fn explicit_projection(inputs: Seq<InputView>) -> Seq<Seq<char>> {
    inputs.filter(explicit_pred()).map_values(input_path_of())
}

/// The canonical statement of output passthrough: every binding's `path`, in
/// the original order.
pub open spec fn output_projection(outputs: Seq<OutputView>) -> Seq<Seq<char>> {
    outputs.map_values(output_path_of())
}

/// Extending the payload by one binding appends its path exactly when the
/// binding is `Explicit`.
proof fn lemma_explicit_input_paths_push(inputs: Seq<InputView>, b: InputView)
    ensures
        explicit_input_paths(inputs.push(b)) == explicit_input_paths(inputs) + (
        if b.in_type is Explicit {
            seq![b.path]
        } else {
            Seq::empty()
        }),
    decreases inputs.len(),
{
    let ext = if b.in_type is Explicit {
        seq![b.path]
    } else {
        Seq::<Seq<char>>::empty()
    };
    if inputs.len() == 0 {
        reveal_with_fuel(explicit_input_paths, 3);
        assert(inputs.push(b).drop_first() =~= Seq::<InputView>::empty());
        assert(explicit_input_paths(inputs.push(b)) =~= explicit_input_paths(inputs) + ext);
    } else {
        assert(inputs.push(b).drop_first() =~= inputs.drop_first().push(b));
        lemma_explicit_input_paths_push(inputs.drop_first(), b);
        assert(inputs.push(b).first() == inputs.first());
        assert(explicit_input_paths(inputs.push(b)) =~= explicit_input_paths(inputs) + ext);
    }
}

/// Extending the payload by one binding extends the canonical projection by
/// its path exactly when the binding is `Explicit`.
proof fn lemma_explicit_projection_push(inputs: Seq<InputView>, b: InputView)
    ensures
        explicit_projection(inputs.push(b)) == explicit_projection(inputs) + (
        if b.in_type is Explicit {
            seq![b.path]
        } else {
            Seq::empty()
        }),
{
    reveal(Seq::filter);
    let pred = explicit_pred();
    let proj = input_path_of();
    let s2 = inputs.push(b);
    assert(s2.drop_last() =~= inputs);
    assert(s2.last() == b);
    let kept = inputs.filter(pred);
    assert(pred(b) == (b.in_type is Explicit));
    assert(s2.filter(pred) == (if pred(b) {
        kept.push(b)
    } else {
        kept
    }));
    if b.in_type is Explicit {
        assert(kept.push(b).map_values(proj) =~= kept.map_values(proj) + seq![b.path]);
        assert(explicit_projection(s2) =~= explicit_projection(inputs) + seq![b.path]);
    } else {
        assert(explicit_projection(s2) =~= explicit_projection(inputs) + Seq::empty());
    }
}

/// Law: input filtering is a pure projection of the payload — exactly the
/// `Explicit`-tagged bindings' paths, their relative order preserved.
pub proof fn lemma_explicit_input_paths_is_projection(inputs: Seq<InputView>)
    ensures
        explicit_input_paths(inputs) == explicit_projection(inputs),
    decreases inputs.len(),
{
    if inputs.len() == 0 {
        reveal(Seq::filter);
        assert(explicit_input_paths(inputs) =~= explicit_projection(inputs));
    } else {
        let prefix = inputs.drop_last();
        let x = inputs.last();
        lemma_explicit_input_paths_is_projection(prefix);
        lemma_explicit_input_paths_push(prefix, x);
        lemma_explicit_projection_push(prefix, x);
        assert(prefix.push(x) =~= inputs);
        assert(explicit_projection(inputs) =~= explicit_input_paths(inputs));
    }
}

/// Extending the payload by one output binding always appends its path.
proof fn lemma_all_output_paths_push(outputs: Seq<OutputView>, b: OutputView)
    ensures
        all_output_paths(outputs.push(b)) == all_output_paths(outputs) + seq![b.path],
    decreases outputs.len(),
{
    if outputs.len() == 0 {
        reveal_with_fuel(all_output_paths, 3);
        assert(outputs.push(b).drop_first() =~= Seq::<OutputView>::empty());
        assert(all_output_paths(outputs.push(b)) =~= all_output_paths(outputs) + seq![b.path]);
    } else {
        assert(outputs.push(b).drop_first() =~= outputs.drop_first().push(b));
        lemma_all_output_paths_push(outputs.drop_first(), b);
        assert(outputs.push(b).first() == outputs.first());
        assert(all_output_paths(outputs.push(b)) =~= all_output_paths(outputs) + seq![b.path]);
    }
}

/// Extending the payload by one output binding always extends the canonical
/// projection by its path.
proof fn lemma_output_projection_push(outputs: Seq<OutputView>, b: OutputView)
    ensures
        output_projection(outputs.push(b)) == output_projection(outputs) + seq![b.path],
{
    let proj = output_path_of();
    let s2 = outputs.push(b);
    assert(s2.drop_last() =~= outputs);
    assert(s2.last() == b);
    assert(proj(b) == b.path);
    assert(s2.map_values(proj) =~= outputs.map_values(proj) + seq![b.path]);
    assert(output_projection(s2) =~= output_projection(outputs) + seq![b.path]);
}

/// Law: output passthrough is a pure projection of the payload — every
/// binding's path, in the original order.
pub proof fn lemma_all_output_paths_is_projection(outputs: Seq<OutputView>)
    ensures
        all_output_paths(outputs) == output_projection(outputs),
    decreases outputs.len(),
{
    if outputs.len() == 0 {
        assert(all_output_paths(outputs) =~= output_projection(outputs));
    } else {
        let prefix = outputs.drop_last();
        let x = outputs.last();
        lemma_all_output_paths_is_projection(prefix);
        lemma_all_output_paths_push(prefix, x);
        lemma_output_projection_push(prefix, x);
        assert(prefix.push(x) =~= outputs);
        assert(output_projection(outputs) =~= all_output_paths(outputs));
    }
}

/// Input filtering: project a started payload's bindings onto the primary
/// input list. A pure projection of the payload: the result is exactly the
/// `Explicit`-tagged paths, their relative order preserved.
pub fn filter_explicit_inputs(inputs: Vec<BuildEdgeInput>) -> (r: Vec<String>)
    ensures
        r.deep_view() == explicit_input_paths(inputs.deep_view()),
{
    let ghost all = inputs.deep_view();
    let mut rest = inputs;
    let mut kept: Vec<String> = Vec::new();
    while rest.len() > 0
        invariant
            kept.deep_view() + explicit_input_paths(rest.deep_view()) == explicit_input_paths(
                all,
            ),
        decreases rest.len(),
    {
        let ghost pre = rest.deep_view();
        let ghost kept_pre = kept.deep_view();
        let b = rest.remove(0);
        proof {
            assert(rest.deep_view() =~= pre.drop_first());
            assert(b.deep_view() == pre.first());
        }
        if matches!(b.in_type, InputEdgeType::Explicit) {
            kept.push(b.path);
            proof {
                assert(kept.deep_view() =~= kept_pre.push(pre.first().path));
                assert(kept.deep_view() + explicit_input_paths(rest.deep_view()) =~= kept_pre
                    + explicit_input_paths(pre));
            }
        } else {
            proof {
                assert(kept.deep_view() + explicit_input_paths(rest.deep_view()) =~= kept_pre
                    + explicit_input_paths(pre));
            }
        }
    }
    proof {
        assert(rest.deep_view() =~= Seq::<InputView>::empty());
        assert(kept.deep_view() + explicit_input_paths(rest.deep_view()) =~= kept.deep_view());
    }
    kept
}

/// Output passthrough: every output path of the payload, in its given order.
pub fn collect_output_paths(outputs: Vec<BuildEdgeOutput>) -> (r: Vec<String>)
    ensures
        r.deep_view() == all_output_paths(outputs.deep_view()),
{
    let ghost all = outputs.deep_view();
    let mut rest = outputs;
    let mut kept: Vec<String> = Vec::new();
    while rest.len() > 0
        invariant
            kept.deep_view() + all_output_paths(rest.deep_view()) == all_output_paths(all),
        decreases rest.len(),
    {
        let ghost pre = rest.deep_view();
        let ghost kept_pre = kept.deep_view();
        let b = rest.remove(0);
        proof {
            assert(rest.deep_view() =~= pre.drop_first());
            assert(b.deep_view() == pre.first());
        }
        kept.push(b.path);
        proof {
            assert(kept.deep_view() =~= kept_pre.push(pre.first().path));
            assert(kept.deep_view() + all_output_paths(rest.deep_view()) =~= kept_pre
                + all_output_paths(pre));
        }
    }
    proof {
        assert(rest.deep_view() =~= Seq::<OutputView>::empty());
        assert(kept.deep_view() + all_output_paths(rest.deep_view()) =~= kept.deep_view());
    }
    kept
}

} // verus!
