//! The argument allocator: distributes a flat list of invocation tokens
//! into named parameter slots according to required/optional/repeating
//! rules.

use vstd::prelude::*;
use crate::parameter::Parameter;
use crate::parameter::ParameterView;

verus! {

/// The views of a sequence of parameters.
pub open spec fn params_view(params: Seq<Parameter>) -> Seq<ParameterView> {
    params.map_values(|p: Parameter| p@)
}

/// The names of a sequence of parameters, in order.
pub open spec fn param_names(params: Seq<ParameterView>) -> Seq<Seq<char>> {
    params.map_values(|p: ParameterView| p.name)
}

/// How many of the parameters are required.
pub open spec fn req_count(params: Seq<ParameterView>) -> nat
    decreases params.len(),
{
    if params.len() == 0 {
        0
    } else {
        (if params[0].required {
            1nat
        } else {
            0nat
        }) + req_count(params.drop_first())
    }
}

/// The allocation policy, as one left-to-right pass over the parameters.
///
/// At each parameter, allocation fails if fewer tokens remain than are
/// still owed to the remaining required parameters. Otherwise the
/// parameter claims zero tokens when no slack is left beyond that debt,
/// all of the slack if it is repeating, and exactly one token otherwise;
/// a required non-repeating parameter always claims its one token, since
/// the debt check guarantees it slack. Tokens left over after the last
/// parameter make the allocation fail.
///
/// On success, the result holds one token list per parameter, in
/// declaration order, each list keeping the tokens' original order.
pub open spec fn allocate(params: Seq<ParameterView>, tokens: Seq<Seq<char>>) -> Option<
    Seq<Seq<Seq<char>>>,
>
    decreases params.len(),
{
    if params.len() == 0 {
        if tokens.len() == 0 {
            Some(Seq::empty())
        } else {
            None
        }
    } else if tokens.len() < req_count(params) {
        None
    } else {
        let rest_min = req_count(params.drop_first());
        let take = if tokens.len() == rest_min {
            0int
        } else if params[0].repeating {
            tokens.len() - rest_min
        } else {
            1int
        };
        match allocate(params.drop_first(), tokens.skip(take)) {
            Some(rest) => Some(seq![tokens.take(take)] + rest),
            None => None,
        }
    }
}

/// The largest index at which `names` holds `name`, or `-1` if none does.
pub open spec fn last_match(names: Seq<Seq<char>>, name: Seq<char>) -> int
    decreases names.len(),
{
    if names.len() == 0 {
        -1
    } else if names.last() == name {
        names.len() - 1
    } else {
        last_match(names.drop_last(), name)
    }
}

/// `Some(rest)` becomes `Some(prefix + rest)`; `None` stays `None`.
spec fn opt_prepend(prefix: Seq<Seq<Seq<char>>>, rest: Option<Seq<Seq<Seq<char>>>>) -> Option<
    Seq<Seq<Seq<char>>>,
> {
    match rest {
        Some(r) => Some(prefix + r),
        None => None,
    }
}

/// Describes the arguments to a command: for each parameter, in
/// declaration order, the list of tokens allocated to it.
pub struct Arguments {
    names: Vec<String>,
    values: Vec<Vec<String>>,
}

impl Arguments {
    #[verifier::type_invariant]
    spec fn inv(self) -> bool {
        self.names@.len() == self.values@.len()
    }

    /// The parameter names, in declaration order.
    pub closed spec fn spec_names(&self) -> Seq<Seq<char>> {
        self.names.deep_view()
    }

    /// The token lists, in declaration order.
    pub closed spec fn spec_values(&self) -> Seq<Seq<Seq<char>>> {
        self.values.deep_view()
    }

    /// Whether some parameter is named `name`.
    pub open spec fn has_param(&self, name: Seq<char>) -> bool {
        exists|k: int| 0 <= k < self.spec_names().len() && self.spec_names()[k] == name
    }

    /// The token list of the last parameter named `name`.
    pub open spec fn spec_get(&self, name: Seq<char>) -> Seq<Seq<char>> {
        self.spec_values()[last_match(self.spec_names(), name)]
    }

    /// Constructs a new `Arguments`, yielding `None` if the tokens after
    /// the program name and command name do not match the provided
    /// parameter specification.
    pub fn new(params: &[Parameter], args: Vec<String>) -> (r: Option<Arguments>)
        requires
            args@.len() >= 2,
        ensures
            match r {
                Some(a) => {
                    &&& allocate(params_view(params@), args.deep_view().skip(2)) == Some(
                        a.spec_values(),
                    )
                    &&& a.spec_names() == param_names(params_view(params@))
                },
                None => allocate(params_view(params@), args.deep_view().skip(2)) is None,
            },
    {
        let ghost pv = params_view(params@);
        let ghost tokens = args.deep_view().skip(2);
        let args_len = args.len();
        let mut names: Vec<String> = Vec::new();
        let mut values: Vec<Vec<String>> = Vec::new();
        let mut min_remaining: usize = count_required(params);
        let mut pos: usize = 2;
        let mut i: usize = 0;
        proof {
            assert(pv.skip(0) =~= pv);
            assert(tokens.skip(0) =~= tokens);
            assert(names.deep_view() =~= param_names(pv.take(0)));
            match allocate(pv, tokens) {
                Some(r) => {
                    assert(values.deep_view() + r =~= r);
                },
                None => {},
            }
        }
        while i < params.len()
            invariant
                pv == params_view(params@),
                tokens == args.deep_view().skip(2),
                args@.len() >= 2,
                args_len == args@.len(),
                pv.len() == params@.len(),
                0 <= i <= pv.len(),
                2 <= pos <= args@.len(),
                min_remaining == req_count(pv.skip(i as int)),
                names@.len() == i,
                values@.len() == i,
                names.deep_view() == param_names(pv.take(i as int)),
                allocate(pv, tokens) == opt_prepend(
                    values.deep_view(),
                    allocate(pv.skip(i as int), tokens.skip(pos - 2)),
                ),
            decreases pv.len() - i,
        {
            let ghost i0 = i as int;
            let ghost pos0 = pos as int;
            let ghost vals0 = values.deep_view();
            let ghost tok_i = tokens.skip(pos0 - 2);
            proof {
                assert(tok_i.len() == args@.len() - pos0);
                assert(pv.skip(i0)[0] == pv[i0]);
                assert(pv.skip(i0).drop_first() =~= pv.skip(i0 + 1));
            }
            let remaining = args_len - pos;
            if remaining < min_remaining {
                proof {
                    assert(allocate(pv.skip(i0), tok_i) is None);
                }
                return None;
            }
            if params[i].required {
                min_remaining = min_remaining - 1;
            }
            let take = if remaining == min_remaining {
                0
            } else if params[i].repeating {
                remaining - min_remaining
            } else {
                1
            };
            proof {
                assert(min_remaining == req_count(pv.skip(i0 + 1)));
            }
            let mut vals: Vec<String> = Vec::new();
            let mut j: usize = 0;
            while j < take
                invariant
                    take <= remaining,
                    args_len == args@.len(),
                    remaining == args@.len() - pos,
                    pos + take <= args@.len(),
                    0 <= j <= take,
                    vals@.len() == j,
                    forall|k: int| 0 <= k < j ==> vals@[k]@ == args@[pos + k]@,
                decreases take - j,
            {
                vals.push(args[pos + j].clone());
                j += 1;
            }
            proof {
                assert forall|k: int| 0 <= k < take implies vals.deep_view()[k] == tok_i.take(
                    take as int,
                )[k] by {
                    assert(vals@[k]@ == args@[pos0 + k]@);
                    assert(tok_i[k] == args.deep_view()[pos0 + k]);
                }
                assert(vals.deep_view() =~= tok_i.take(take as int));
            }
            let ghost names0 = names.deep_view();
            names.push(params[i].name.to_owned());
            values.push(vals);
            pos = pos + take;
            i = i + 1;
            proof {
                assert forall|k: int| 0 <= k <= i0 implies names.deep_view()[k] == param_names(
                    pv.take(i0 + 1),
                )[k] by {
                    if k < i0 {
                        assert(names.deep_view()[k] == names0[k]);
                        assert(names0[k] == param_names(pv.take(i0))[k]);
                    } else {
                        assert(names@[k]@ == params@[i0].name@);
                    }
                }
                assert(names.deep_view() =~= param_names(pv.take(i as int)));
                assert(values.deep_view() =~= vals0.push(tok_i.take(take as int)));
                assert(tok_i.skip(take as int) =~= tokens.skip(pos - 2));
                match allocate(pv.skip(i0 + 1), tok_i.skip(take as int)) {
                    Some(rest) => {
                        assert(allocate(pv.skip(i0), tok_i) == Some(
                            seq![tok_i.take(take as int)] + rest,
                        ));
                        assert(vals0 + (seq![tok_i.take(take as int)] + rest) =~= values.deep_view()
                            + rest);
                    },
                    None => {
                        assert(allocate(pv.skip(i0), tok_i) is None);
                    },
                }
                assert(allocate(pv, tokens) == opt_prepend(
                    values.deep_view(),
                    allocate(pv.skip(i as int), tokens.skip(pos - 2)),
                ));
            }
        }
        proof {
            assert(pv.skip(i as int) =~= Seq::<ParameterView>::empty());
        }
        if pos < args_len {
            None
        } else {
            proof {
                assert(tokens.skip(pos - 2).len() == 0);
                match allocate(pv.skip(i as int), tokens.skip(pos - 2)) {
                    Some(r) => {
                        assert(values.deep_view() + r =~= values.deep_view());
                    },
                    None => {},
                }
            }
            Some(Arguments { names, values })
        }
    }

    /// Looks up the token list allocated to the parameter named `name`,
    /// or `None` if no parameter has that name.
    pub fn get(&self, name: &str) -> (r: Option<&Vec<String>>)
        ensures
            match r {
                Some(v) => self.has_param(name@) && v.deep_view() == self.spec_get(name@),
                None => !self.has_param(name@),
            },
    {
        proof {
            use_type_invariant(self);
        }
        let mut i: usize = self.names.len();
        while i > 0
            invariant
                0 <= i <= self.names@.len(),
                self.names@.len() == self.values@.len(),
                forall|k: int|
                    i <= k < self.spec_names().len() ==> self.spec_names()[k] != name@,
            decreases i,
        {
            i = i - 1;
            if crate::text::str_eq(self.names[i].as_str(), name) {
                proof {
                    assert(self.spec_names()[i as int] == self.names@[i as int]@);
                    assert(self.spec_names()[i as int] == name@);
                    assert(self.has_param(name@));
                    lemma_last_match_suffix(self.spec_names(), name@, i as int);
                    assert(self.values@[i as int].deep_view() == self.spec_values()[i as int]);
                }
                return Some(&self.values[i]);
            }
            proof {
                assert(self.spec_names()[i as int] == self.names@[i as int]@);
            }
        }
        proof {
            if self.has_param(name@) {
                let k = choose|k: int|
                    0 <= k < self.spec_names().len() && self.spec_names()[k] == name@;
                assert(false);
            }
        }
        None
    }
}

/// How many of the parameters in `params` are required.
fn count_required(params: &[Parameter]) -> (c: usize)
    ensures
        c == req_count(params_view(params@)),
{
    let ghost pv = params_view(params@);
    let mut c: usize = 0;
    let mut i: usize = params.len();
    proof {
        assert(pv.skip(i as int) =~= Seq::<ParameterView>::empty());
    }
    while i > 0
        invariant
            pv == params_view(params@),
            pv.len() == params@.len(),
            0 <= i <= pv.len(),
            c == req_count(pv.skip(i as int)),
            c + i <= pv.len(),
        decreases i,
    {
        i = i - 1;
        proof {
            assert(pv.skip(i as int)[0] == pv[i as int]);
            assert(pv.skip(i as int).drop_first() =~= pv.skip(i as int + 1));
        }
        if params[i].required {
            c = c + 1;
        }
    }
    proof {
        assert(pv.skip(0) =~= pv);
    }
    c
}

/// A required count never exceeds the parameter count.
pub proof fn lemma_req_count_le_len(params: Seq<ParameterView>)
    ensures
        req_count(params) <= params.len(),
    decreases params.len(),
{
    if params.len() > 0 {
        lemma_req_count_le_len(params.drop_first());
    }
}

/// A successful allocation yields exactly one token list per parameter.
pub proof fn lemma_allocate_some_len(params: Seq<ParameterView>, tokens: Seq<Seq<char>>)
    ensures
        allocate(params, tokens) matches Some(r) ==> r.len() == params.len(),
    decreases params.len(),
{
    if params.len() > 0 && tokens.len() >= req_count(params) {
        let rest_min = req_count(params.drop_first());
        let take = if tokens.len() == rest_min {
            0int
        } else if params[0].repeating {
            tokens.len() - rest_min
        } else {
            1int
        };
        lemma_allocate_some_len(params.drop_first(), tokens.skip(take));
    }
}

/// A successful allocation gives every required parameter at least one
/// token.
pub proof fn lemma_required_gets_token(
    params: Seq<ParameterView>,
    tokens: Seq<Seq<char>>,
    i: int,
)
    requires
        0 <= i < params.len(),
        params[i].required,
    ensures
        allocate(params, tokens) matches Some(r) ==> r[i].len() >= 1,
    decreases params.len(),
{
    if tokens.len() >= req_count(params) {
        let rest_min = req_count(params.drop_first());
        let take = if tokens.len() == rest_min {
            0int
        } else if params[0].repeating {
            tokens.len() - rest_min
        } else {
            1int
        };
        if i > 0 {
            lemma_required_gets_token(params.drop_first(), tokens.skip(take), i - 1);
        }
        lemma_allocate_some_len(params.drop_first(), tokens.skip(take));
        match allocate(params.drop_first(), tokens.skip(take)) {
            Some(rest) => {
                assert(allocate(params, tokens) == Some(seq![tokens.take(take)] + rest));
                if i == 0 {
                    assert(req_count(params) == 1 + rest_min);
                    assert(take >= 1);
                    assert((seq![tokens.take(take)] + rest)[0] == tokens.take(take));
                    assert(tokens.take(take).len() == take);
                } else {
                    assert((seq![tokens.take(take)] + rest)[i] == rest[i - 1]);
                }
            },
            None => {},
        }
    }
}

/// Law: a single required, non-repeating parameter with exactly one input
/// token is allocated exactly that token.
pub proof fn lemma_single_required_one_token(p: ParameterView, t: Seq<char>)
    requires
        p.required,
        !p.repeating,
    ensures
        allocate(seq![p], seq![t]) == Some(seq![seq![t]]),
{
    let params = seq![p];
    let tokens = seq![t];
    assert(params.drop_first() =~= Seq::<ParameterView>::empty());
    assert(req_count(params) == 1);
    assert(tokens.skip(1) =~= Seq::<Seq<char>>::empty());
    assert(allocate(params.drop_first(), tokens.skip(1)) == Some(Seq::<Seq<Seq<char>>>::empty()));
    assert(tokens.take(1) =~= seq![t]);
    assert(seq![tokens.take(1)] + Seq::<Seq<Seq<char>>>::empty() =~= seq![seq![t]]);
}

/// Law: with fewer input tokens than required parameters, allocation
/// fails.
pub proof fn lemma_too_few_tokens(params: Seq<ParameterView>, tokens: Seq<Seq<char>>)
    requires
        tokens.len() < req_count(params),
    ensures
        allocate(params, tokens) is None,
{
    assert(params.len() > 0);
}

/// Law: when no parameter is repeating, each parameter absorbs at most
/// one token, so more tokens than declared parameters make allocation
/// fail.
pub proof fn lemma_surplus_tokens(params: Seq<ParameterView>, tokens: Seq<Seq<char>>)
    requires
        forall|k: int| 0 <= k < params.len() ==> !params[k].repeating,
        tokens.len() > params.len(),
    ensures
        allocate(params, tokens) is None,
    decreases params.len(),
{
    if params.len() == 0 {
    } else if tokens.len() < req_count(params) {
    } else {
        let rest = params.drop_first();
        lemma_req_count_le_len(rest);
        assert(req_count(rest) < tokens.len());
        assert(!params[0].repeating);
        assert(forall|k: int| 0 <= k < rest.len() ==> !rest[k].repeating);
        lemma_surplus_tokens(rest, tokens.skip(1));
    }
}

/// Law: a required non-repeating parameter followed by a required
/// repeating one: the first claims the first token, the second absorbs
/// every remaining token, in order.
pub proof fn lemma_required_then_repeating(
    p1: ParameterView,
    p2: ParameterView,
    a: Seq<char>,
    b: Seq<char>,
    c: Seq<char>,
)
    requires
        p1.required,
        !p1.repeating,
        p2.required,
        p2.repeating,
    ensures
        allocate(seq![p1, p2], seq![a, b, c]) == Some(seq![seq![a], seq![b, c]]),
{
    let params = seq![p1, p2];
    let tokens = seq![a, b, c];
    let rest = params.drop_first();
    assert(rest =~= seq![p2]);
    assert(rest.drop_first() =~= Seq::<ParameterView>::empty());
    assert(req_count(rest) == 1);
    assert(req_count(params) == 2);
    let tok2 = tokens.skip(1);
    assert(tok2 =~= seq![b, c]);
    let tok3 = tok2.skip(2);
    assert(tok3 =~= Seq::<Seq<char>>::empty());
    assert(allocate(rest.drop_first(), tok3) == Some(Seq::<Seq<Seq<char>>>::empty()));
    assert(tok2.take(2) =~= seq![b, c]);
    assert(seq![tok2.take(2)] + Seq::<Seq<Seq<char>>>::empty() =~= seq![seq![b, c]]);
    assert(allocate(rest, tok2) == Some(seq![seq![b, c]]));
    assert(tokens.take(1) =~= seq![a]);
    assert(seq![tokens.take(1)] + seq![seq![b, c]] =~= seq![seq![a], seq![b, c]]);
}

/// Law: an optional parameter before a required one yields to it when the
/// tokens cover only the required demand: the optional slot stays empty
/// and the required parameter claims the token.
pub proof fn lemma_optional_then_required_one_token(
    p1: ParameterView,
    p2: ParameterView,
    x: Seq<char>,
)
    requires
        !p1.required,
        p2.required,
    ensures
        allocate(seq![p1, p2], seq![x]) == Some(seq![Seq::<Seq<char>>::empty(), seq![x]]),
{
    let params = seq![p1, p2];
    let tokens = seq![x];
    let rest = params.drop_first();
    assert(rest =~= seq![p2]);
    assert(rest.drop_first() =~= Seq::<ParameterView>::empty());
    assert(req_count(rest) == 1);
    assert(req_count(params) == 1);
    let tok2 = tokens.skip(0);
    assert(tok2 =~= seq![x]);
    let tok3 = tok2.skip(1);
    assert(tok3 =~= Seq::<Seq<char>>::empty());
    assert(allocate(rest.drop_first(), tok3) == Some(Seq::<Seq<Seq<char>>>::empty()));
    assert(tok2.take(1) =~= seq![x]);
    assert(seq![tok2.take(1)] + Seq::<Seq<Seq<char>>>::empty() =~= seq![seq![x]]);
    assert(allocate(rest, tok2) == Some(seq![seq![x]]));
    assert(tokens.take(0) =~= Seq::<Seq<char>>::empty());
    assert(seq![tokens.take(0)] + seq![seq![x]] =~= seq![Seq::<Seq<char>>::empty(), seq![x]]);
}

/// Law: a required non-repeating parameter before an optional one: with a
/// token of slack available, each claims one token in order.
pub proof fn lemma_required_then_optional_two_tokens(
    p1: ParameterView,
    p2: ParameterView,
    x: Seq<char>,
    y: Seq<char>,
)
    requires
        p1.required,
        !p1.repeating,
        !p2.required,
    ensures
        allocate(seq![p1, p2], seq![x, y]) == Some(seq![seq![x], seq![y]]),
{
    let params = seq![p1, p2];
    let tokens = seq![x, y];
    let rest = params.drop_first();
    assert(rest =~= seq![p2]);
    assert(rest.drop_first() =~= Seq::<ParameterView>::empty());
    assert(req_count(rest) == 0);
    assert(req_count(params) == 1);
    let tok2 = tokens.skip(1);
    assert(tok2 =~= seq![y]);
    let tok3 = tok2.skip(1);
    assert(tok3 =~= Seq::<Seq<char>>::empty());
    assert(allocate(rest.drop_first(), tok3) == Some(Seq::<Seq<Seq<char>>>::empty()));
    assert(tok2.take(1) =~= seq![y]);
    assert(seq![tok2.take(1)] + Seq::<Seq<Seq<char>>>::empty() =~= seq![seq![y]]);
    assert(allocate(rest, tok2) == Some(seq![seq![y]]));
    assert(tokens.take(1) =~= seq![x]);
    assert(seq![tokens.take(1)] + seq![seq![y]] =~= seq![seq![x], seq![y]]);
}

/// If `names` holds `name` at `j` and nowhere after `j`, then `j` is the
/// last match.
proof fn lemma_last_match_suffix(names: Seq<Seq<char>>, name: Seq<char>, j: int)
    requires
        0 <= j < names.len(),
        names[j] == name,
        forall|k: int| j < k < names.len() ==> names[k] != name,
    ensures
        last_match(names, name) == j,
    decreases names.len(),
{
    if j == names.len() - 1 {
        assert(names.last() == name);
    } else {
        assert(names.last() != name);
        lemma_last_match_suffix(names.drop_last(), name, j);
    }
}

} // verus!
