//! Inference requests between the transports and the worker pool: validation
//! against the model's signature, and what comes of the worker's outputs.
use crate::laws::requests::{accepted_inputs_stand_where_the_model_takes_them, names_fit};
use crate::protocol::{
    shape_fault, v2_datatype, v2_name, v2_names_are_distinct, validate_shape, Datatype, TensorData,
    TensorView,
};
use crate::relax::{
    spec_views, Metadata, TensorSpec, TensorSpecView,
};
use crate::text::{decimal, decimal_u64, same_text};
use vstd::prelude::*;
use vstd::seq_lib::{
    lemma_multiset_commutative, to_multiset_build, to_multiset_contains, to_multiset_remove,
};

verus! {

/// One input tensor of a request.
#[derive(Debug)]
pub struct InferInput {
    pub name: String,
    pub shape: Vec<i64>,
    pub data: TensorData,
}

/// The contents of an [`InferInput`].
#[verifier::ext_equal]
pub struct InferInputView {
    pub name: Seq<char>,
    pub shape: Seq<i64>,
    pub data: TensorView,
}

impl View for InferInput {
    type V = InferInputView;

    open spec fn view(&self) -> InferInputView {
        InferInputView { name: self.name@, shape: self.shape@, data: self.data@ }
    }
}

/// The contents of a list of inputs.
pub open spec fn input_views(v: Seq<InferInput>) -> Seq<InferInputView> {
    v.map_values(|i: InferInput| i@)
}

/// Coarse error kind, from which REST and gRPC each take their own status.
#[derive(Debug)]
pub enum ServeErr {
    NotFound(String),
    BadRequest(String),
    Internal(String),
}

/// The contents of a [`ServeErr`].
#[verifier::ext_equal]
pub enum ServeFault {
    NotFound(Seq<char>),
    BadRequest(Seq<char>),
    Internal(Seq<char>),
}

impl View for ServeErr {
    type V = ServeFault;

    open spec fn view(&self) -> ServeFault {
        match self {
            ServeErr::NotFound(m) => ServeFault::NotFound(m@),
            ServeErr::BadRequest(m) => ServeFault::BadRequest(m@),
            ServeErr::Internal(m) => ServeFault::Internal(m@),
        }
    }
}

/// The names of the inputs of a request.
pub open spec fn input_names(inputs: Seq<InferInputView>) -> Seq<Seq<char>> {
    inputs.map_values(|i: InferInputView| i.name)
}

/// The names of the tensors of a signature.
pub open spec fn spec_names(specs: Seq<TensorSpecView>) -> Seq<Seq<char>> {
    specs.map_values(|s: TensorSpecView| s.name)
}

/// Whether the inputs are to be matched by name: every one has a name, and the
/// names are those of the signature, each as often as there.
pub open spec fn matched_by_name(
    inputs: Seq<InferInputView>,
    specs: Seq<TensorSpecView>,
) -> bool {
    &&& specs.len() > 0
    &&& forall|i: int| 0 <= i < inputs.len() ==> (#[trigger] inputs[i]).name.len() > 0
    &&& input_names(inputs).to_multiset() == spec_names(specs).to_multiset()
}

/// Selects the inputs of a given name.
pub open spec fn named(w: Seq<char>) -> spec_fn(InferInputView) -> bool {
    |i: InferInputView| i.name == w
}

/// How often the name at place `k` occurs before it.
pub open spec fn occurrence(names: Seq<Seq<char>>, k: int) -> nat {
    names.take(k).to_multiset().count(names[k])
}

/// The inputs in the order of a list of names: each place takes the next input of
/// its name, in the order of the request, that no earlier place has taken.
pub open spec fn by_name(
    inputs: Seq<InferInputView>,
    names: Seq<Seq<char>>,
) -> Seq<InferInputView> {
    Seq::new(
        names.len(),
        |k: int| inputs.filter(named(names[k]))[occurrence(names, k) as int],
    )
}

/// The inputs in the order in which the model takes them: by name where the names
/// match the signature, otherwise by position in the request.
pub open spec fn arranged(
    inputs: Seq<InferInputView>,
    specs: Seq<TensorSpecView>,
) -> Seq<InferInputView> {
    if matched_by_name(inputs, specs) {
        by_name(inputs, spec_names(specs))
    } else {
        inputs
    }
}

/// The complaint about the first of the first `n` inputs whose shape does not fit
/// its data.
pub open spec fn first_shape_fault(inputs: Seq<InferInputView>, n: nat) -> Option<Seq<char>>
    decreases n,
{
    if n == 0 || n > inputs.len() {
        None
    } else {
        match first_shape_fault(inputs, (n - 1) as nat) {
            Some(text) => Some(text),
            None => shape_fault(
                (n - 1) as nat,
                inputs[n - 1].shape,
                inputs[n - 1].data.count(),
            ),
        }
    }
}

/// What becomes of a request for model `name`: the inputs to run, in the order of
/// the signature, or the fault to report.
pub open spec fn accepted_inputs(
    model_name: Seq<char>,
    specs: Seq<TensorSpecView>,
    name: Seq<char>,
    inputs: Seq<InferInputView>,
) -> Result<Seq<InferInputView>, ServeFault> {
    if name != model_name {
        Err(ServeFault::NotFound("model '"@ + name + "' not found"@))
    } else if inputs.len() == 0 {
        Err(ServeFault::BadRequest("no input tensors"@))
    } else if inputs.len() != specs.len() {
        Err(
            ServeFault::BadRequest(
                "expected "@ + decimal(specs.len() as int) + " input tensor(s), got "@ + decimal(
                    inputs.len() as int,
                ),
            ),
        )
    } else {
        let ordered = arranged(inputs, specs);
        match first_shape_fault(ordered, ordered.len()) {
            Some(text) => Err(ServeFault::BadRequest(text)),
            None => Ok(ordered),
        }
    }
}

/// The texts of borrowed strings.
spec fn borrowed_texts(v: Seq<&str>) -> Seq<Seq<char>> {
    v.map_values(|s: &str| s@)
}

/// Whether the inputs carry the names of the signature, each as often as there.
fn same_names(inputs: &Vec<InferInput>, specs: &Vec<TensorSpec>) -> (r: bool)
    requires
        inputs@.len() == specs@.len(),
    ensures
        r == (input_names(input_views(inputs@)).to_multiset() == spec_names(
            spec_views(specs@),
        ).to_multiset()),
{
    let ghost names = input_names(input_views(inputs@));
    let ghost wanted = spec_names(spec_views(specs@));
    let mut left: Vec<&str> = Vec::new();
    for i in 0..specs.len()
        invariant
            wanted == spec_names(spec_views(specs@)),
            borrowed_texts(left@) == wanted.take(i as int),
    {
        let ghost before = borrowed_texts(left@);
        let name = specs[i].name.as_str();
        left.push(name);
        assert(borrowed_texts(left@) =~= before.push(name@));
        assert(wanted.take(i + 1) =~= wanted.take(i as int).push(wanted[i as int]));
    }
    assert(wanted.take(specs@.len() as int) == wanted);
    assert(names.take(0) =~= Seq::<Seq<char>>::empty());
    proof {
        names.take(0).to_multiset_ensures();
        assert(wanted.to_multiset() =~= borrowed_texts(left@).to_multiset().add(
            names.take(0).to_multiset(),
        ));
    }
    for i in 0..inputs.len()
        invariant
            inputs@.len() == specs@.len(),
            names == input_names(input_views(inputs@)),
            wanted == spec_names(spec_views(specs@)),
            left@.len() == inputs@.len() - i,
            wanted.to_multiset() == borrowed_texts(left@).to_multiset().add(
                names.take(i as int).to_multiset(),
            ),
    {
        let ghost name = names[i as int];
        let ghost before = borrowed_texts(left@);
        assert(names.take(i + 1) =~= names.take(i as int).push(name));
        proof {
            to_multiset_build(names.take(i as int), name);
        }
        let mut k: usize = 0;
        while k < left.len() && !same_text(left[k], inputs[i].name.as_str())
            invariant
                k <= left@.len(),
                i < inputs@.len(),
                name == inputs@[i as int].name@,
                forall|j: int| 0 <= j < k ==> #[trigger] left@[j]@ != name,
            decreases left@.len() - k,
        {
            k = k + 1;
        }
        if k == left.len() {
            proof {
                assert(!before.contains(name)) by {
                    if before.contains(name) {
                        let j = choose|j: int| 0 <= j < before.len() && before[j] == name;
                        assert(left@[j]@ == name);
                    }
                }
                to_multiset_contains(before, name);
                assert(names =~= names.take(i + 1) + names.skip(i + 1));
                lemma_multiset_commutative(names.take(i + 1), names.skip(i + 1));
                assert(names.to_multiset().count(name) > wanted.to_multiset().count(name));
            }
            return false;
        }
        proof {
            to_multiset_remove(before, k as int);
        }
        assert(before[k as int] == name);
        proof {
            to_multiset_contains(before, name);
        }
        let found = left.remove(k);
        assert(borrowed_texts(left@) =~= before.remove(k as int));
        assert(wanted.to_multiset() =~= borrowed_texts(left@).to_multiset().add(
            names.take(i + 1).to_multiset(),
        ));
    }
    assert(names.take(names.len() as int) == names);
    assert(borrowed_texts(left@) =~= Seq::<Seq<char>>::empty());
    proof {
        borrowed_texts(left@).to_multiset_ensures();
        assert(wanted.to_multiset() =~= names.to_multiset());
    }
    true
}

/// The inputs of a name are as many as the name counts.
proof fn inputs_of_a_name(s: Seq<InferInputView>, w: Seq<char>)
    ensures
        s.filter(named(w)).len() == input_names(s).to_multiset().count(w),
    decreases s.len(),
{
    reveal(Seq::filter);
    broadcast use vstd::multiset::group_multiset_axioms;

    if s.len() == 0 {
        input_names(s).to_multiset_ensures();
        assert(input_names(s) =~= Seq::<Seq<char>>::empty());
    } else {
        let rest = s.drop_last();
        let x = s.last();
        inputs_of_a_name(rest, w);
        assert(s =~= rest.push(x));
        rest.lemma_filter_push(x, named(w));
        assert(input_names(s) =~= input_names(rest).push(x.name));
        to_multiset_build(input_names(rest), x.name);
    }
}

/// One more name in a list.
proof fn one_more_name(names: Seq<Seq<char>>, k: int, w: Seq<char>)
    requires
        0 <= k < names.len(),
    ensures
        names.take(k + 1).to_multiset().count(w) == names.take(k).to_multiset().count(w) + (
        if names[k] == w {
            1nat
        } else {
            0
        }),
{
    broadcast use vstd::multiset::group_multiset_axioms;

    assert(names.take(k + 1) =~= names.take(k).push(names[k]));
    to_multiset_build(names.take(k), names[k]);
}

/// A name occurs before a place less often than in the whole list.
proof fn occurrence_is_below_count(names: Seq<Seq<char>>, k: int)
    requires
        0 <= k < names.len(),
    ensures
        occurrence(names, k) < names.to_multiset().count(names[k]),
{
    broadcast use vstd::multiset::group_multiset_axioms;

    one_more_name(names, k, names[k]);
    assert(names =~= names.take(k + 1) + names.skip(k + 1));
    lemma_multiset_commutative(names.take(k + 1), names.skip(k + 1));
}

/// Taking the first input of a name out of a list takes it out of the inputs of
/// that name, and leaves those of any other name as they are.
proof fn take_out_first(s: Seq<InferInputView>, i: int, w: Seq<char>)
    requires
        0 <= i < s.len(),
        s[i].name == w,
        forall|j: int| 0 <= j < i ==> (#[trigger] s[j]).name != w,
    ensures
        s.filter(named(w)).len() > 0,
        s.filter(named(w))[0] == s[i],
        s.remove(i).filter(named(w)) == s.filter(named(w)).skip(1),
        forall|v: Seq<char>|
            v != w ==> s.remove(i).filter(#[trigger] named(v)) == s.filter(named(v)),
{
    let head = s.take(i);
    let one = seq![s[i]];
    let tail = s.skip(i + 1);
    assert(s =~= (head + one) + tail);
    assert(s.remove(i) =~= head + tail);
    assert forall|v: Seq<char>|
        s.filter(#[trigger] named(v)) == head.filter(named(v)) + one.filter(named(v))
            + tail.filter(named(v)) && s.remove(i).filter(named(v)) == head.filter(named(v))
            + tail.filter(named(v)) && one.filter(named(v)) == (if v == w {
            one
        } else {
            Seq::empty()
        }) by {
        reveal(Seq::filter);
        Seq::filter_distributes_over_add(head + one, tail, named(v));
        Seq::filter_distributes_over_add(head, one, named(v));
        Seq::filter_distributes_over_add(head, tail, named(v));
        let none = Seq::<InferInputView>::empty();
        assert(one =~= none.push(s[i]));
        none.lemma_filter_push(s[i], named(v));
        assert(none.filter(named(v)) =~= none);
        assert(none.push(s[i]) =~= one);
    }
    head.lemma_all_neg_filter_empty(named(w));
    assert(s.filter(named(w)) =~= one + tail.filter(named(w)));
    assert(s.remove(i).filter(named(w)) =~= s.filter(named(w)).skip(1));
    assert forall|v: Seq<char>| v != w implies s.remove(i).filter(#[trigger] named(v)) == s.filter(
        named(v),
    ) by {
        assert(s.filter(named(v)) =~= s.remove(i).filter(named(v)));
    }
}

/// Puts the inputs in the order of the signature.
fn order_by_name(inputs: Vec<InferInput>, specs: &Vec<TensorSpec>) -> (r: Vec<InferInput>)
    requires
        input_names(input_views(inputs@)).to_multiset() == spec_names(
            spec_views(specs@),
        ).to_multiset(),
    ensures
        input_views(r@) == by_name(input_views(inputs@), spec_names(spec_views(specs@))),
{
    let ghost all = input_views(inputs@);
    let ghost names = spec_names(spec_views(specs@));
    let ghost ordered = by_name(all, names);
    let mut rest = inputs;
    let mut out: Vec<InferInput> = Vec::new();
    assert(names.take(0) =~= Seq::<Seq<char>>::empty());
    assert forall|w: Seq<char>|
        input_views(rest@).filter(#[trigger] named(w)) == all.filter(named(w)).skip(
            names.take(0).to_multiset().count(w) as int,
        ) by {
        names.take(0).to_multiset_ensures();
        assert(all.filter(named(w)).skip(0) =~= all.filter(named(w)));
    }
    for k in 0..specs.len()
        invariant
            names == spec_names(spec_views(specs@)),
            ordered == by_name(all, names),
            input_names(all).to_multiset() == names.to_multiset(),
            input_views(out@) =~= ordered.take(k as int),
            forall|w: Seq<char>|
                input_views(rest@).filter(#[trigger] named(w)) == all.filter(named(w)).skip(
                    names.take(k as int).to_multiset().count(w) as int,
                ),
    {
        let ghost before = input_views(rest@);
        let ghost written = input_views(out@);
        let ghost w = names[k as int];
        assert(w == specs@[k as int].name@);
        let ghost done = occurrence(names, k as int) as int;
        proof {
            occurrence_is_below_count(names, k as int);
            inputs_of_a_name(all, w);
        }
        assert(before.filter(named(w)) == all.filter(named(w)).skip(done));
        let mut i: usize = 0;
        while i < rest.len() && !same_text(rest[i].name.as_str(), specs[k].name.as_str())
            invariant
                i <= rest@.len(),
                k < specs@.len(),
                w == specs@[k as int].name@,
                before == input_views(rest@),
                forall|j: int| 0 <= j < i ==> (#[trigger] before[j]).name != w,
            decreases rest@.len() - i,
        {
            assert(before[i as int] == rest@[i as int]@);
            i = i + 1;
        }
        proof {
            if i == rest@.len() {
                before.lemma_all_neg_filter_empty(named(w));
            }
            assert(i < rest@.len());
            assert(before[i as int] == rest@[i as int]@);
            take_out_first(before, i as int, w);
        }
        let input = rest.remove(i);
        assert(input@ == before[i as int]);
        assert(input@ == ordered[k as int]);
        out.push(input);
        assert(input_views(out@) =~= written.push(input@));
        assert(input_views(rest@) =~= before.remove(i as int));
        assert forall|v: Seq<char>|
            input_views(rest@).filter(#[trigger] named(v)) == all.filter(named(v)).skip(
                names.take(k + 1).to_multiset().count(v) as int,
            ) by {
            one_more_name(names, k as int, v);
            if v == w {
                assert(all.filter(named(v)).skip(done).skip(1) =~= all.filter(named(v)).skip(
                    done + 1,
                ));
            }
        }
    }
    out
}

/// What both transports serve: one model under its name.
#[derive(Debug)]
pub struct Handle {
    pub metadata: Metadata,
    pub model_name: String,
}

impl Handle {
    /// Validates a v2 request against the model's signature. The inputs that come
    /// back are what the worker is to run: in the order of the signature, with
    /// shapes that fit their data. Both transports take this path; they differ only
    /// in decoding and encoding.
    pub fn serve_infer(&self, name: &str, inputs: Vec<InferInput>) -> (r: Result<
        Vec<InferInput>,
        ServeErr,
    >)
        ensures
            (match r {
                Ok(v) => Ok::<Seq<InferInputView>, ServeFault>(input_views(v@)),
                Err(e) => Err(e@),
            }) == accepted_inputs(
                self.model_name@,
                self.metadata@.inputs,
                name@,
                input_views(inputs@),
            ),
            r matches Ok(v) ==> {
                let specs = self.metadata.inputs@;
                let fit = (forall|i: int|
                    0 <= i < inputs@.len() ==> (#[trigger] inputs@[i]).name@.len() > 0) && Seq::new(
                    inputs@.len(),
                    |i: int| inputs@[i].name@,
                ).to_multiset() == Seq::new(specs.len(), |i: int| specs[i].name@).to_multiset();
                &&& v@.len() == specs.len()
                &&& fit ==> forall|k: int|
                    0 <= k < specs.len() ==> (#[trigger] v@[k]).name@ == specs[k].name@
                &&& !fit ==> forall|k: int|
                    0 <= k < specs.len() ==> (#[trigger] v@[k]).name@ == inputs@[k].name@
                        && v@[k].shape@ == inputs@[k].shape@ && v@[k].data@ == inputs@[k].data@
            },
    {
        let ghost request = input_views(inputs@);
        let ghost specs = self.metadata@.inputs;
        if !same_text(name, self.model_name.as_str()) {
            let mut m = "model '".to_string();
            m.append(name);
            m.append("' not found");
            return Err(ServeErr::NotFound(m));
        }
        if inputs.len() == 0 {
            return Err(ServeErr::BadRequest("no input tensors".to_string()));
        }
        let expected: usize = self.metadata.inputs.len();
        if inputs.len() != expected {
            let mut m = "expected ".to_string();
            m.append(decimal_u64(expected as u64).as_str());
            m.append(" input tensor(s), got ");
            m.append(decimal_u64(inputs.len() as u64).as_str());
            return Err(ServeErr::BadRequest(m));
        }
        let mut named = true;
        for i in 0..inputs.len()
            invariant
                request == input_views(inputs@),
                named == (forall|j: int|
                    0 <= j < i ==> (#[trigger] request[j]).name.len() > 0),
        {
            assert(request[i as int].name == inputs@[i as int].name@);
            if inputs[i].name.as_str().is_empty() {
                named = false;
            }
        }
        let by_name = named && same_names(&inputs, &self.metadata.inputs);
        let ordered = if by_name {
            order_by_name(inputs, &self.metadata.inputs)
        } else {
            inputs
        };
        let ghost plan = input_views(ordered@);
        assert(plan == arranged(request, specs));
        for i in 0..ordered.len()
            invariant
                plan == input_views(ordered@),
                first_shape_fault(plan, i as nat) is None,
                plan == arranged(request, specs),
                request == input_views(inputs@),
                self.model_name@ == name@,
                request.len() == specs.len(),
                request.len() > 0,
                specs == self.metadata@.inputs,
        {
            let input = &ordered[i];
            assert(plan[i as int] == input@);
            match validate_shape(i, input.shape.as_slice(), input.data.len()) {
                Ok(()) => {},
                Err(m) => {
                    proof {
                        first_fault_stays(plan, (i + 1) as nat, plan.len());
                    }
                    return Err(ServeErr::BadRequest(m));
                },
            }
        }
        proof {
            accepted_inputs_stand_where_the_model_takes_them(
                self.model_name@,
                specs,
                name@,
                request,
            );
            assert(Seq::new(inputs@.len(), |i: int| inputs@[i].name@) =~= Seq::new(
                request.len(),
                |i: int| request[i].name,
            ));
            assert(Seq::new(self.metadata.inputs@.len(), |i: int| self.metadata.inputs@[i].name@)
                =~= Seq::new(specs.len(), |i: int| specs[i].name));
            if forall|i: int| 0 <= i < inputs@.len() ==> (#[trigger] inputs@[i]).name@.len() > 0 {
                assert forall|i: int| 0 <= i < request.len() implies (
                #[trigger] request[i]).name.len() > 0 by {
                    assert(request[i] == inputs@[i]@);
                }
            }
            if names_fit(request, specs) {
                assert forall|i: int| 0 <= i < inputs@.len() implies (
                #[trigger] inputs@[i]).name@.len() > 0 by {
                    assert(request[i] == inputs@[i]@);
                }
            }
            assert forall|k: int| 0 <= k < ordered@.len() implies plan[k] == (
            #[trigger] ordered@[k])@ && specs[k].name == self.metadata.inputs@[k].name@
                && request[k] == inputs@[k]@ by {}
            assert(ordered@.len() == plan.len());
        }
        Ok(ordered)
    }
}

proof fn first_fault_stays(inputs: Seq<InferInputView>, k: nat, n: nat)
    requires
        k <= n <= inputs.len(),
        first_shape_fault(inputs, k) is Some,
    ensures
        first_shape_fault(inputs, n) == first_shape_fault(inputs, k),
    decreases n,
{
    if k < n {
        first_fault_stays(inputs, k, (n - 1) as nat);
    }
}

/// Up to any place, the inputs of a name that were taken are the first ones of the
/// request.
proof fn taken_so_far(
    inputs: Seq<InferInputView>,
    names: Seq<Seq<char>>,
    k: int,
    w: Seq<char>,
)
    requires
        input_names(inputs).to_multiset() == names.to_multiset(),
        0 <= k <= names.len(),
    ensures
        names.take(k).to_multiset().count(w) <= inputs.filter(named(w)).len(),
        by_name(inputs, names).take(k).filter(named(w)) == inputs.filter(named(w)).take(
            names.take(k).to_multiset().count(w) as int,
        ),
    decreases k,
{
    let ordered = by_name(inputs, names);
    let of_name = inputs.filter(named(w));
    if k == 0 {
        reveal(Seq::filter);
        names.take(0).to_multiset_ensures();
        assert(names.take(0) =~= Seq::<Seq<char>>::empty());
        assert(ordered.take(0).filter(named(w)) =~= of_name.take(0));
    } else {
        taken_so_far(inputs, names, k - 1, w);
        one_more_name(names, k - 1, w);
        by_name_has_the_names(inputs, names);
        let x = ordered[k - 1];
        assert(input_names(ordered)[k - 1] == x.name);
        assert(ordered.take(k) =~= ordered.take(k - 1).push(x));
        ordered.take(k - 1).lemma_filter_push(x, named(w));
        if names[k - 1] == w {
            occurrence_is_below_count(names, k - 1);
            inputs_of_a_name(inputs, w);
            let n = occurrence(names, k - 1) as int;
            assert(of_name.take(n + 1) =~= of_name.take(n).push(of_name[n]));
        }
    }
}

proof fn by_name_has_the_names(inputs: Seq<InferInputView>, names: Seq<Seq<char>>)
    requires
        input_names(inputs).to_multiset() == names.to_multiset(),
    ensures
        input_names(by_name(inputs, names)) == names,
{
    let ordered = by_name(inputs, names);
    assert forall|k: int| 0 <= k < names.len() implies input_names(ordered)[k] == names[k] by {
        occurrence_is_below_count(names, k);
        inputs_of_a_name(inputs, names[k]);
        inputs.lemma_filter_pred(named(names[k]), occurrence(names, k) as int);
    }
    assert(input_names(ordered) =~= names);
}

/// Inputs of one name stay in the order of the request.
pub proof fn inputs_of_one_name_keep_their_order(
    inputs: Seq<InferInputView>,
    specs: Seq<TensorSpecView>,
    w: Seq<char>,
)
    ensures
        arranged(inputs, specs).filter(named(w)) == inputs.filter(named(w)),
{
    if matched_by_name(inputs, specs) {
        let names = spec_names(specs);
        let ordered = by_name(inputs, names);
        taken_so_far(inputs, names, names.len() as int, w);
        inputs_of_a_name(inputs, w);
        assert(names.take(names.len() as int) =~= names);
        assert(ordered.take(names.len() as int) =~= ordered);
        assert(inputs.filter(named(w)).take(inputs.filter(named(w)).len() as int)
            =~= inputs.filter(named(w)));
    }
}

proof fn counted_among_its_name(s: Seq<InferInputView>, x: InferInputView)
    ensures
        s.to_multiset().count(x) == s.filter(named(x.name)).to_multiset().count(x),
    decreases s.len(),
{
    reveal(Seq::filter);
    broadcast use vstd::multiset::group_multiset_axioms;

    if s.len() > 0 {
        let rest = s.drop_last();
        let y = s.last();
        counted_among_its_name(rest, x);
        assert(s =~= rest.push(y));
        rest.lemma_filter_push(y, named(x.name));
        to_multiset_build(rest, y);
        to_multiset_build(rest.filter(named(x.name)), y);
    }
}

/// Arranging loses and invents nothing: the inputs of the request are all there,
/// each as often as it was sent.
pub proof fn arranging_keeps_every_input(
    inputs: Seq<InferInputView>,
    specs: Seq<TensorSpecView>,
)
    ensures
        arranged(inputs, specs).to_multiset() == inputs.to_multiset(),
        arranged(inputs, specs).len() == inputs.len(),
{
    let ordered = arranged(inputs, specs);
    assert forall|x: InferInputView| #[trigger]
        ordered.to_multiset().count(x) == inputs.to_multiset().count(x) by {
        inputs_of_one_name_keep_their_order(inputs, specs, x.name);
        counted_among_its_name(ordered, x);
        counted_among_its_name(inputs, x);
    }
    assert(ordered.to_multiset() =~= inputs.to_multiset());
    vstd::seq_lib::to_multiset_len(inputs);
    vstd::seq_lib::to_multiset_len(ordered);
}

/// Inputs that are matched by name end up where the signature has their name.
pub proof fn named_inputs_follow_the_signature(
    inputs: Seq<InferInputView>,
    specs: Seq<TensorSpecView>,
)
    requires
        matched_by_name(inputs, specs),
    ensures
        input_names(arranged(inputs, specs)) == spec_names(specs),
{
    by_name_has_the_names(inputs, spec_names(specs));
}

/// Inputs that already stand in the order of the signature stay where they are.
pub proof fn ordered_inputs_stay_in_place(
    inputs: Seq<InferInputView>,
    specs: Seq<TensorSpecView>,
)
    requires
        input_names(inputs) == spec_names(specs),
    ensures
        arranged(inputs, specs) == inputs,
{
    if matched_by_name(inputs, specs) {
        let names = spec_names(specs);
        assert(input_names(inputs).len() == inputs.len());
        assert forall|k: int| 0 <= k < inputs.len() implies by_name(inputs, names)[k]
            == inputs[k] by {
            let w = names[k];
            assert(input_names(inputs)[k] == inputs[k].name);
            assert(inputs =~= inputs.take(k).push(inputs[k]) + inputs.skip(k + 1));
            Seq::filter_distributes_over_add(
                inputs.take(k).push(inputs[k]),
                inputs.skip(k + 1),
                named(w),
            );
            inputs.take(k).lemma_filter_push(inputs[k], named(w));
            inputs_of_a_name(inputs.take(k), w);
            assert(input_names(inputs.take(k)) =~= names.take(k));
        }
        assert(by_name(inputs, names) =~= inputs);
    }
}

/// Inputs that are not matched by name keep the order of the request.
pub proof fn other_inputs_keep_their_order(
    inputs: Seq<InferInputView>,
    specs: Seq<TensorSpecView>,
)
    requires
        !matched_by_name(inputs, specs),
    ensures
        arranged(inputs, specs) == inputs,
{
}

/// Only the order among inputs of the same name matters: two requests that agree
/// on it for every name run the same way.
pub proof fn only_inputs_of_one_name_have_an_order(
    a: Seq<InferInputView>,
    b: Seq<InferInputView>,
    specs: Seq<TensorSpecView>,
)
    requires
        matched_by_name(a, specs),
        matched_by_name(b, specs),
        forall|w: Seq<char>| a.filter(#[trigger] named(w)) == b.filter(named(w)),
    ensures
        arranged(a, specs) == arranged(b, specs),
{
    assert(arranged(a, specs) =~= arranged(b, specs));
}

/// The order in which a client lists named inputs does not matter: two requests
/// with the same inputs run the same way, unless the signature repeats a name.
pub proof fn request_order_does_not_matter(
    a: Seq<InferInputView>,
    b: Seq<InferInputView>,
    specs: Seq<TensorSpecView>,
)
    requires
        spec_names(specs).no_duplicates(),
        matched_by_name(a, specs),
        matched_by_name(b, specs),
        a.to_multiset() == b.to_multiset(),
    ensures
        arranged(a, specs) == arranged(b, specs),
{
    let names = spec_names(specs);
    let x = arranged(a, specs);
    let y = arranged(b, specs);
    named_inputs_follow_the_signature(a, specs);
    named_inputs_follow_the_signature(b, specs);
    arranging_keeps_every_input(a, specs);
    arranging_keeps_every_input(b, specs);
    assert(input_names(x).len() == x.len());
    assert(input_names(y).len() == y.len());
    assert forall|i: int| 0 <= i < x.len() implies x[i] == y[i] by {
        assert(x.contains(x[i]));
        to_multiset_contains(x, x[i]);
        to_multiset_contains(y, x[i]);
        let j = choose|j: int| 0 <= j < y.len() && y[j] == x[i];
        assert(input_names(x)[i] == x[i].name);
        assert(input_names(y)[j] == y[j].name);
        assert(names[i] == names[j]);
        assert(i == j);
    }
    assert(x =~= y);
}

/// What was accepted passes every later check of the same kind: each input's shape
/// fits its data, at the place where it is run.
pub proof fn accepted_inputs_stay_valid(
    model_name: Seq<char>,
    specs: Seq<TensorSpecView>,
    name: Seq<char>,
    inputs: Seq<InferInputView>,
)
    ensures
        accepted_inputs(model_name, specs, name, inputs) matches Ok(v) ==> {
            &&& name == model_name
            &&& v == arranged(inputs, specs)
            &&& v.len() == specs.len()
            &&& forall|i: int|
                0 <= i < v.len() ==> shape_fault(
                    i as nat,
                    (#[trigger] v[i]).shape,
                    v[i].data.count(),
                ) is None
        },
{
    if let Ok(v) = accepted_inputs(model_name, specs, name, inputs) {
        arranging_keeps_every_input(inputs, specs);
        assert forall|i: int| 0 <= i < v.len() implies shape_fault(
            i as nat,
            (#[trigger] v[i]).shape,
            v[i].data.count(),
        ) is None by {
            no_fault_in_prefix(v, (i + 1) as nat, v.len());
        }
    }
}

proof fn no_fault_in_prefix(inputs: Seq<InferInputView>, k: nat, n: nat)
    requires
        k <= n <= inputs.len(),
        first_shape_fault(inputs, n) is None,
    ensures
        first_shape_fault(inputs, k) is None,
    decreases n,
{
    if k < n {
        no_fault_in_prefix(inputs, k, (n - 1) as nat);
    }
}

/// A request is turned away as "not found" exactly if it asks for another model,
/// and validation never puts the blame on the server.
pub proof fn refusals_name_the_cause(
    model_name: Seq<char>,
    specs: Seq<TensorSpecView>,
    name: Seq<char>,
    inputs: Seq<InferInputView>,
)
    ensures
        accepted_inputs(model_name, specs, name, inputs) matches Err(e) ==> {
            &&& e is NotFound <==> name != model_name
            &&& !(e is Internal)
        },
        name != model_name ==> accepted_inputs(model_name, specs, name, inputs) is Err,
{
}

/// One output tensor of a response.
#[derive(Debug)]
pub struct InferOutput {
    pub name: String,
    pub shape: Vec<i64>,
    pub datatype: String,
    pub data: TensorData,
}

/// The contents of an [`InferOutput`].
#[verifier::ext_equal]
pub struct InferOutputView {
    pub name: Seq<char>,
    pub shape: Seq<i64>,
    pub datatype: Seq<char>,
    pub data: TensorView,
}

impl View for InferOutput {
    type V = InferOutputView;

    open spec fn view(&self) -> InferOutputView {
        InferOutputView {
            name: self.name@,
            shape: self.shape@,
            datatype: self.datatype@,
            data: self.data@,
        }
    }
}

/// The contents of a list of outputs.
pub open spec fn output_views(v: Seq<InferOutput>) -> Seq<InferOutputView> {
    v.map_values(|o: InferOutput| o@)
}

/// How a run of the worker ended, as its caller sees it.
#[derive(Debug)]
pub enum WorkerAnswer {
    /// The job queue takes no more jobs.
    Unavailable,
    /// The job was taken, and no answer will come.
    Lost,
    /// The run failed.
    Failed(String),
    /// The run gave these outputs.
    Done(Vec<InferOutput>),
}

/// The outputs of a run, or the fault to report for it.
pub open spec fn run_outcome(a: WorkerAnswer) -> Result<Seq<InferOutputView>, ServeFault> {
    match a {
        WorkerAnswer::Unavailable => Err(ServeFault::Internal("worker unavailable"@)),
        WorkerAnswer::Lost => Err(ServeFault::Internal("worker terminated without reply"@)),
        WorkerAnswer::Failed(m) => Err(ServeFault::Internal(m@)),
        WorkerAnswer::Done(v) => Ok(output_views(v@)),
    }
}

/// Turns the end of a run into the result of a request. Whatever goes wrong once
/// the inputs were accepted is the server's own fault.
pub fn conclude(answer: WorkerAnswer) -> (r: Result<Vec<InferOutput>, ServeErr>)
    ensures
        (match r {
            Ok(v) => Ok::<Seq<InferOutputView>, ServeFault>(output_views(v@)),
            Err(e) => Err(e@),
        }) == run_outcome(answer),
{
    match answer {
        WorkerAnswer::Unavailable => Err(ServeErr::Internal("worker unavailable".to_string())),
        WorkerAnswer::Lost => Err(
            ServeErr::Internal("worker terminated without reply".to_string()),
        ),
        WorkerAnswer::Failed(m) => Err(ServeErr::Internal(m)),
        WorkerAnswer::Done(v) => Ok(v),
    }
}

/// The DLPack type code of signed integers.
pub const DL_INT: u8 = 0;

/// The DLPack type code of unsigned integers.
pub const DL_UINT: u8 = 1;

/// The DLPack type code of floating-point numbers.
pub const DL_FLOAT: u8 = 2;

/// The data type of a tensor, by its DLPack type code and width.
pub open spec fn dlpack_datatype(code: u8, bits: u8) -> Option<Datatype> {
    if code == DL_FLOAT {
        if bits == 32 {
            Some(Datatype::Fp32)
        } else if bits == 64 {
            Some(Datatype::Fp64)
        } else {
            None
        }
    } else if code == DL_INT {
        if bits == 8 {
            Some(Datatype::Int8)
        } else if bits == 16 {
            Some(Datatype::Int16)
        } else if bits == 32 {
            Some(Datatype::Int32)
        } else if bits == 64 {
            Some(Datatype::Int64)
        } else {
            None
        }
    } else if code == DL_UINT {
        if bits == 8 {
            Some(Datatype::Uint8)
        } else if bits == 16 {
            Some(Datatype::Uint16)
        } else if bits == 32 {
            Some(Datatype::Uint32)
        } else if bits == 64 {
            Some(Datatype::Uint64)
        } else {
            None
        }
    } else {
        None
    }
}

/// Decides how an output tensor is to be read.
pub fn output_datatype(code: u8, bits: u8) -> (r: Result<Datatype, String>)
    ensures
        match dlpack_datatype(code, bits) {
            Some(d) => r == Ok::<Datatype, String>(d),
            None => r matches Err(m) && m@ == "unsupported output dtype (code="@ + decimal(
                code as int,
            ) + " bits="@ + decimal(bits as int) + "); FP16/others deferred"@,
        },
{
    match (code, bits) {
        (DL_FLOAT, 32) => Ok(Datatype::Fp32),
        (DL_FLOAT, 64) => Ok(Datatype::Fp64),
        (DL_INT, 8) => Ok(Datatype::Int8),
        (DL_INT, 16) => Ok(Datatype::Int16),
        (DL_INT, 32) => Ok(Datatype::Int32),
        (DL_INT, 64) => Ok(Datatype::Int64),
        (DL_UINT, 8) => Ok(Datatype::Uint8),
        (DL_UINT, 16) => Ok(Datatype::Uint16),
        (DL_UINT, 32) => Ok(Datatype::Uint32),
        (DL_UINT, 64) => Ok(Datatype::Uint64),
        _ => {
            let mut m = "unsupported output dtype (code=".to_string();
            m.append(decimal_u64(code as u64).as_str());
            m.append(" bits=");
            m.append(decimal_u64(bits as u64).as_str());
            m.append("); FP16/others deferred");
            Err(m)
        },
    }
}

/// An output tensor as read from the runtime.
#[derive(Debug)]
pub struct RawOutput {
    pub shape: Vec<i64>,
    pub data: TensorData,
}

/// The name of output `i`: the declared one, or `output_<i>` beyond those.
pub open spec fn output_name(outputs: Seq<TensorSpecView>, i: int) -> Seq<char> {
    if 0 <= i < outputs.len() {
        outputs[i].name
    } else {
        "output_"@ + decimal(i)
    }
}

/// The outputs of a run, named by the signature. The data type is that of the
/// tensor itself, not the declared one.
pub open spec fn named_outputs(
    outputs: Seq<TensorSpecView>,
    raw: Seq<RawOutput>,
) -> Seq<InferOutputView> {
    Seq::new(
        raw.len(),
        |i: int|
            InferOutputView {
                name: output_name(outputs, i),
                shape: raw[i].shape@,
                datatype: v2_name(raw[i].data@.datatype()),
                data: raw[i].data@,
            },
    )
}

/// Names the outputs of a run.
pub fn name_outputs(outputs: &Vec<TensorSpec>, raw: Vec<RawOutput>) -> (r: Vec<InferOutput>)
    ensures
        output_views(r@) == named_outputs(spec_views(outputs@), raw@),
        r@.len() == raw@.len(),
        forall|k: int|
            0 <= k < r@.len() ==> (#[trigger] r@[k]).shape@ == raw@[k].shape@ && r@[k].data@
                == raw@[k].data@ && r@[k].datatype@ == v2_name(raw@[k].data@.datatype()) && (k
                < outputs@.len() ==> r@[k].name@ == outputs@[k].name@),
{
    let ghost all = named_outputs(spec_views(outputs@), raw@);
    let count: usize = raw.len();
    let mut r: Vec<InferOutput> = Vec::new();
    let mut i: usize = 0;
    for o in it: raw
        invariant
            count == raw@.len(),
            all == named_outputs(spec_views(outputs@), raw@),
            it.seq() == raw@,
            i == it.index(),
            output_views(r@) =~= all.take(i as int),
    {
        let ghost before = output_views(r@);
        let name = if i < outputs.len() {
            outputs[i].name.clone()
        } else {
            let mut m = "output_".to_string();
            m.append(decimal_u64(i as u64).as_str());
            m
        };
        let datatype = o.data.datatype().v2().to_string();
        let output = InferOutput { name, shape: o.shape, datatype, data: o.data };
        assert(output@ == all[i as int]);
        r.push(output);
        assert(output_views(r@) =~= before.push(output@));
        assert(all.take(i + 1) =~= all.take(i as int).push(all[i as int]));
        i = i + 1;
    }
    assert(all.take(all.len() as int) == all);
    assert(forall|k: int| 0 <= k < r@.len() ==> output_views(r@)[k] == (#[trigger] r@[k])@);
    assert(output_views(r@).len() == r@.len());
    r
}

/// Every output carries the v2 name of the type that its elements really have.
pub proof fn outputs_declare_their_own_datatype(
    outputs: Seq<TensorSpecView>,
    raw: Seq<RawOutput>,
    i: int,
)
    requires
        0 <= i < raw.len(),
    ensures
        v2_datatype(named_outputs(outputs, raw)[i].datatype) == Some(raw[i].data@.datatype()),
{
    v2_names_are_distinct(raw[i].data@.datatype());
}

} // verus!
