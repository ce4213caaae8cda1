//! Sets of candidate operations for autotune.

use crate::decimal::decimal;
use vstd::prelude::*;
use vstd::string::StringExecFns;

verus! {

use crate::decimal::{decimal_digits, lemma_decimal_has_no_colon, lemma_decimal_is_injective};

/// Why a candidate could not be run.
#[derive(Debug)]
pub enum AutotuneError {
    /// The candidate failed.
    Unknown {
        /// The name of the candidate.
        name: String,
        /// What it reported.
        err: String,
    },
    /// No candidate is valid.
    NoValidKernelFound {
        /// What was tried.
        context: String,
    },
    /// The candidate was skipped.
    Skip {
        /// The name of the candidate.
        name: String,
    },
}

/// A named candidate function.
pub struct TuneFn<D> {
    name: String,
    func: D,
}

impl<D> TuneFn<D> {
    /// The name of the candidate.
    pub closed spec fn label(&self) -> Seq<char> {
        self.name@
    }

    /// The function.
    pub closed spec fn delegate(&self) -> D {
        self.func
    }

    /// Names a function.
    pub fn new(name: String, func: D) -> (function: Self)
        ensures
            function.label() == name@,
            function.delegate() == func,
    {
        TuneFn { name, func }
    }

    /// Returns the name of the candidate.
    pub fn name(&self) -> (name: &str)
        ensures
            name@ == self.label(),
    {
        self.name.as_str()
    }

    /// Run the wrapped function on the given inputs.
    pub fn execute<I, Out>(&self, inputs: I) -> (result: Result<Out, AutotuneError>) where
        D: Fn(I) -> Result<Out, AutotuneError>,

        requires
            call_requires(self.delegate(), (inputs,)),
        ensures
            call_ensures(self.delegate(), (inputs,), result),
    {
        (self.func)(inputs)
    }
}

/// A candidate that can be registered in a [`TunableSet`].
pub struct Tunable<D> {
    /// The candidate.
    pub function: TuneFn<D>,
}

impl<D> Tunable<D> {
    /// Names a candidate.
    pub fn new(name: &str, func: D) -> (tunable: Self)
        ensures
            tunable.function.label() == name@,
            tunable.function.delegate() == func,
    {
        Tunable { function: TuneFn::new(String::from_str(name), func) }
    }
}

/// Generates the key under which the result for some inputs is cached.
pub trait KeyGenerator<K, I> {
    /// The key of the inputs.
    fn generate(&self, inputs: &I) -> K;
}

/// Generates the inputs that candidates are tested with.
pub trait InputGenerator<K, I> {
    /// The inputs for a key, made after reference inputs.
    fn generate(&self, key: &K, inputs: &I) -> I;
}

/// Tests candidates with clones of the inputs of the real call.
#[derive(Clone, Copy, Debug, PartialEq, Eq, Structural)]
pub struct CloneInputGenerator;

impl<K, I: Clone> InputGenerator<K, I> for CloneInputGenerator {
    fn generate(&self, key: &K, inputs: &I) -> (result: I)
        ensures
            cloned(*inputs, result),
    {
        inputs.clone()
    }
}

/// A key of the autotune cache.
pub trait AutotuneKey: View {
    /// The text under which the key is cached.
    spec fn text(&self) -> Seq<char>;

    /// The text of a key tells the key: equal keys have the same text, and different ones do not.
    proof fn text_tells_key(a: &Self, b: &Self)
        ensures
            a.text() == b.text() <==> a@ == b@,
    ;

    /// Returns the text under which the key is cached.
    fn to_text(&self) -> (text: String)
        ensures
            text@ == self.text(),
    ;
}

impl AutotuneKey for String {
    open spec fn text(&self) -> Seq<char> {
        self@
    }

    proof fn text_tells_key(a: &Self, b: &Self) {
    }

    fn to_text(&self) -> (text: String) {
        self.clone()
    }
}

/// A set of candidate functions for autotune, sharing a key generator and an input generator.
pub struct TunableSet<D, KG, IG> {
    tunables: Vec<Tunable<D>>,
    reference_index: Option<usize>,
    key_gen: KG,
    input_gen: IG,
}

/// The names of candidates.
pub open spec fn labels<D>(tunables: Seq<Tunable<D>>) -> Seq<Seq<char>> {
    Seq::new(tunables.len(), |i: int| tunables[i].function.label())
}

/// Names as one text: each one comes after its length and a colon.
pub open spec fn names_text(names: Seq<Seq<char>>) -> Seq<char>
    decreases names.len(),
{
    if names.len() == 0 {
        Seq::empty()
    } else {
        decimal_digits(names[0].len()) + ":"@ + names[0] + names_text(names.drop_first())
    }
}

/// The lowercase hexadecimal digits of the MD5 digest of a text.
pub uninterp spec fn md5_digits(text: Seq<char>) -> Seq<char>;

/// Calls `md5::compute` on a text and writes the digest in lowercase hexadecimal, as the crate
/// formats it: two digits for each of its sixteen bytes.
#[verifier::external_body]
fn md5_hex(text: &str) -> (digits: String)
    ensures
        digits@ == md5_digits(text@),
        digits@.len() == 32,
{
    format!("{:x}", md5::compute(text))
}

impl<D, KG, IG> TunableSet<D, KG, IG> {
    /// The candidates, in registration order.
    pub closed spec fn candidates(&self) -> Seq<Tunable<D>> {
        self.tunables@
    }

    /// The candidate that was registered as the reference.
    pub closed spec fn reference(&self) -> Option<usize> {
        self.reference_index
    }

    /// The key generator.
    pub closed spec fn key_generator(&self) -> KG {
        self.key_gen
    }

    /// The input generator.
    pub closed spec fn input_generator(&self) -> IG {
        self.input_gen
    }

    /// The reference is one of the candidates.
    pub open spec fn wf(&self) -> bool {
        self.reference() matches Some(index) ==> index < self.candidates().len()
    }

    /// The number of tunables in the set.
    pub fn len(&self) -> (len: usize)
        ensures
            len == self.candidates().len(),
    {
        self.tunables.len()
    }

    /// Whether this set contains no tunables.
    pub fn is_empty(&self) -> (empty: bool)
        ensures
            empty == (self.candidates().len() == 0),
    {
        self.tunables.len() == 0
    }

    /// Create a tunable set from a key generator and an input generator.
    pub fn new(key_gen: KG, input_gen: IG) -> (set: Self)
        ensures
            set.candidates() == Seq::<Tunable<D>>::empty(),
            set.reference() is None,
            set.key_generator() == key_gen,
            set.input_generator() == input_gen,
            set.wf(),
    {
        TunableSet { tunables: Vec::new(), reference_index: None, key_gen, input_gen }
    }

    /// Register a tunable with this tunable set.
    pub fn with(self, tunable: Tunable<D>) -> (set: Self)
        requires
            self.wf(),
        ensures
            set.candidates() == self.candidates().push(tunable),
            set.reference() == self.reference(),
            set.key_generator() == self.key_generator(),
            set.input_generator() == self.input_generator(),
            set.wf(),
    {
        let mut set = self;
        set.tunables.push(tunable);
        set
    }

    /// Register the trusted correctness reference used by checked autotune.
    ///
    /// When no reference is declared, checked autotune uses the final registered candidate. Only
    /// one reference can be registered.
    pub fn with_reference(self, tunable: Tunable<D>) -> (set: Self)
        requires
            self.wf(),
            self.reference() is None,
        ensures
            set.candidates() == self.candidates().push(tunable),
            set.reference() == Some(self.candidates().len() as usize),
            set.key_generator() == self.key_generator(),
            set.input_generator() == self.input_generator(),
            set.wf(),
    {
        let mut set = self;
        set.reference_index = Some(set.tunables.len());
        set.tunables.push(tunable);
        set
    }

    /// Returns the candidate index used as the checked-autotune correctness reference.
    pub fn reference_index(&self) -> (index: usize)
        requires
            self.wf(),
            self.candidates().len() > 0,
        ensures
            index == (match self.reference() {
                Some(index) => index as int,
                None => self.candidates().len() - 1,
            }),
            index < self.candidates().len(),
    {
        match self.reference_index {
            Some(index) => index,
            None => self.tunables.len() - 1,
        }
    }

    /// All candidate operations in this set, in registration order.
    pub fn autotunables(&self) -> (functions: Vec<&TuneFn<D>>)
        ensures
            functions@.len() == self.candidates().len(),
            forall|i: int|
                0 <= i < functions@.len() ==> *(#[trigger] functions@[i])
                    == self.candidates()[i].function,
    {
        let mut functions: Vec<&TuneFn<D>> = Vec::new();
        let mut index: usize = 0;
        while index < self.tunables.len()
            invariant
                index <= self.tunables.len(),
                functions@.len() == index,
                forall|i: int|
                    0 <= i < functions@.len() ==> *(#[trigger] functions@[i])
                        == self.tunables@[i].function,
            decreases self.tunables.len() - index,
        {
            functions.push(&self.tunables[index].function);
            index = index + 1;
        }
        functions
    }

    /// Returns the operation for the given index, matching the order of
    /// [`TunableSet::autotunables`].
    pub fn fastest(&self, fastest_index: usize) -> (function: &TuneFn<D>)
        requires
            fastest_index < self.candidates().len(),
        ensures
            *function == self.candidates()[fastest_index as int].function,
    {
        &self.tunables[fastest_index].function
    }

    /// Writes the names of the candidates as one text, from which they can be told.
    pub fn checksum_text(&self) -> (text: String)
        ensures
            text@ == names_text(labels(self.candidates())),
    {
        let mut text = String::new();
        let mut index: usize = 0;
        let ghost names = labels(self.tunables@);
        proof {
            assert(names.skip(0) =~= names);
            assert(text@ + names_text(names) =~= names_text(names));
        }
        while index < self.tunables.len()
            invariant
                index <= self.tunables.len(),
                names == labels(self.tunables@),
                text@ + names_text(names.skip(index as int)) == names_text(names),
            decreases self.tunables.len() - index,
        {
            let ghost before = text@;
            let ghost rest = names.skip(index as int);
            let name = self.tunables[index].function.name();
            let len: usize = name.unicode_len();
            text.append(decimal(len as u64).as_str());
            text.append(":");
            text.append(name);
            proof {
                assert(rest[0] == name@);
                assert(rest.drop_first() =~= names.skip(index + 1));
                assert(text@ + names_text(names.skip(index + 1)) =~= before + names_text(rest));
            }
            index = index + 1;
        }
        assert(names.skip(index as int) =~= Seq::<Seq<char>>::empty());
        assert(text@ + names_text(names.skip(index as int)) =~= text@);
        text
    }

    /// Compute a checksum that invalidates outdated cached auto-tune results when the set of
    /// tunable names changes.
    pub fn compute_checksum(&self) -> (checksum: String)
        ensures
            checksum@ == md5_digits(names_text(labels(self.candidates()))),
            checksum@.len() == 32,
    {
        let text = self.checksum_text();
        md5_hex(text.as_str())
    }

    /// Generate a key from a set of inputs.
    pub fn generate_key<K, I>(&self, inputs: &I) -> (key: K) where KG: KeyGenerator<K, I>
        requires
            call_requires(
                <KG as KeyGenerator<K, I>>::generate,
                (&self.key_generator(), inputs),
            ),
        ensures
            call_ensures(
                <KG as KeyGenerator<K, I>>::generate,
                (&self.key_generator(), inputs),
                key,
            ),
    {
        self.key_gen.generate(inputs)
    }

    /// Generate a set of test inputs from a key and reference inputs.
    pub fn generate_inputs<K, I>(&self, key: &K, inputs: &I) -> (result: I) where
        IG: InputGenerator<K, I>,

        requires
            call_requires(
                <IG as InputGenerator<K, I>>::generate,
                (&self.input_generator(), key, inputs),
            ),
        ensures
            call_ensures(
                <IG as InputGenerator<K, I>>::generate,
                (&self.input_generator(), key, inputs),
                result,
            ),
    {
        self.input_gen.generate(key, inputs)
    }
}

impl<D, KG> TunableSet<D, KG, CloneInputGenerator> {
    /// Shorthand for [`TunableSet::new`] with a [`CloneInputGenerator`]: benchmarks run on clones
    /// of the real call inputs.
    pub fn new_cloning_inputs(key_gen: KG) -> (set: Self)
        ensures
            set.candidates() == Seq::<Tunable<D>>::empty(),
            set.reference() is None,
            set.key_generator() == key_gen,
            set.input_generator() == CloneInputGenerator,
            set.wf(),
    {
        TunableSet::new(key_gen, CloneInputGenerator)
    }
}

/// The checksum depends on the names of the candidates, and on nothing else of the set.
pub proof fn law_checksum_depends_on_names<D, KG, IG>(
    a: TunableSet<D, KG, IG>,
    b: TunableSet<D, KG, IG>,
)
    requires
        a.candidates().len() == b.candidates().len(),
        forall|i: int|
            0 <= i < a.candidates().len() ==> (#[trigger] a.candidates()[i]).function.label()
                == b.candidates()[i].function.label(),
    ensures
        md5_digits(names_text(labels(a.candidates()))) == md5_digits(
            names_text(labels(b.candidates())),
        ),
{
    assert(labels(a.candidates()) =~= labels(b.candidates()));
}

/// The text that the checksum is taken of tells the names: other names, more of them, or another
/// order give another text.
pub proof fn law_checksum_text_tells_names(a: Seq<Seq<char>>, b: Seq<Seq<char>>)
    requires
        names_text(a) == names_text(b),
    ensures
        a == b,
    decreases a.len(),
{
    reveal_strlit(":");
    if a.len() > 0 && b.len() > 0 {
        let (x, y) = (decimal_digits(a[0].len()), decimal_digits(b[0].len()));
        let (xs, ys) = (a[0] + names_text(a.drop_first()), b[0] + names_text(b.drop_first()));
        assert(x + ":"@ + xs =~= names_text(a));
        assert(y + ":"@ + ys =~= names_text(b));
        lemma_decimal_has_no_colon(a[0].len());
        lemma_decimal_has_no_colon(b[0].len());
        lemma_cut_at_colon(x, xs, y, ys);
        lemma_decimal_is_injective(a[0].len(), b[0].len());
        assert(a[0] =~= xs.take(a[0].len() as int));
        assert(b[0] =~= ys.take(b[0].len() as int));
        assert(names_text(a.drop_first()) =~= xs.skip(a[0].len() as int));
        assert(names_text(b.drop_first()) =~= ys.skip(b[0].len() as int));
        law_checksum_text_tells_names(a.drop_first(), b.drop_first());
        assert(a =~= seq![a[0]] + a.drop_first());
        assert(b =~= seq![b[0]] + b.drop_first());
    } else if a.len() > 0 {
        assert(names_text(a).len() > 0);
        assert(names_text(b).len() == 0);
    } else if b.len() > 0 {
        assert(names_text(b).len() > 0);
        assert(names_text(a).len() == 0);
    } else {
        assert(a =~= b);
    }
}

/// A text that begins with a part without a colon, and then has one, can be cut in one way only.
proof fn lemma_cut_at_colon(x: Seq<char>, xs: Seq<char>, y: Seq<char>, ys: Seq<char>)
    requires
        x + ":"@ + xs == y + ":"@ + ys,
        !x.contains(':'),
        !y.contains(':'),
    ensures
        x == y,
        xs == ys,
{
    reveal_strlit(":");
    let text = x + ":"@ + xs;
    assert(text[x.len() as int] == ':');
    assert((y + ":"@ + ys)[y.len() as int] == ':');
    if x.len() < y.len() {
        assert((y + ":"@ + ys)[x.len() as int] == y[x.len() as int]);
    } else if y.len() < x.len() {
        assert(text[y.len() as int] == x[y.len() as int]);
    }
    assert(x =~= text.take(x.len() as int));
    assert(y =~= text.take(x.len() as int));
    assert(xs =~= text.skip(x.len() as int + 1));
    assert(ys =~= text.skip(x.len() as int + 1));
}

/// Adding candidates does not move a declared reference; without one, the reference is the
/// candidate that was registered last.
pub proof fn law_reference_stays<D, KG, IG>(
    before: TunableSet<D, KG, IG>,
    after: TunableSet<D, KG, IG>,
    tunable: Tunable<D>,
)
    requires
        before.wf(),
        call_ensures(TunableSet::<D, KG, IG>::with, (before, tunable), after),
    ensures
        after.reference() == before.reference(),
        before.reference() matches Some(index) ==> after.candidates()[index as int]
            == before.candidates()[index as int],
        after.candidates()[after.candidates().len() - 1] == tunable,
{
}

/// The index of an operation finds the operation that the list of all of them has at that place,
/// and registering more operations moves none of them.
pub proof fn law_index_finds_its_operation<D, KG, IG>(
    set: TunableSet<D, KG, IG>,
    tunable: Tunable<D>,
    longer: TunableSet<D, KG, IG>,
    functions: Vec<&TuneFn<D>>,
    index: usize,
    found: &TuneFn<D>,
    later: &TuneFn<D>,
)
    requires
        index < set.candidates().len(),
        call_ensures(TunableSet::autotunables, (&set,), functions),
        call_ensures(TunableSet::fastest, (&set, index), found),
        call_ensures(TunableSet::with, (set, tunable), longer),
        call_ensures(TunableSet::fastest, (&longer, index), later),
    ensures
        *found == *functions@[index as int],
        *later == *found,
        functions@.len() == set.candidates().len(),
        longer.candidates().len() == set.candidates().len() + 1,
        longer.candidates().last() == tunable,
{
}

/// The checksum of a set changes with every operation that is registered, and goes by its name
/// alone: the text that it is taken of is that of the set before, then that of the name.
pub proof fn law_checksum_text_grows(names: Seq<Seq<char>>, name: Seq<char>)
    ensures
        names_text(names.push(name)) == names_text(names) + names_text(seq![name]),
        names_text(seq![name]) == decimal_digits(name.len()).push(':') + name,
    decreases names.len(),
{
    reveal_strlit(":");
    assert(seq![name].drop_first() =~= Seq::<Seq<char>>::empty());
    reveal_with_fuel(names_text, 2);
    assert(names_text(seq![name]) =~= decimal_digits(name.len()).push(':') + name);
    if names.len() == 0 {
        assert(names.push(name) =~= seq![name]);
        assert(names_text(names) + names_text(seq![name]) =~= names_text(seq![name]));
    } else {
        law_checksum_text_grows(names.drop_first(), name);
        assert(names.push(name).drop_first() =~= names.drop_first().push(name));
        assert(names_text(names.push(name)) =~= names_text(names) + names_text(seq![name]));
    }
}

/// The checksum is that of the text of the names, and the text tells them: sets with other names,
/// more of them, or another order of them have other texts.
pub proof fn law_checksum_is_of_the_names<D, KG, IG>(
    a: TunableSet<D, KG, IG>,
    b: TunableSet<D, KG, IG>,
    first: String,
    second: String,
    checksum: String,
)
    requires
        call_ensures(TunableSet::checksum_text, (&a,), first),
        call_ensures(TunableSet::checksum_text, (&b,), second),
        call_ensures(TunableSet::compute_checksum, (&a,), checksum),
    ensures
        checksum@ == md5_digits(first@),
        first@ == second@ ==> a.candidates().len() == b.candidates().len() && forall|i: int|
            0 <= i < a.candidates().len() ==> (#[trigger] a.candidates()[i]).function.label()
                == b.candidates()[i].function.label(),
{
    if first@ == second@ {
        law_checksum_text_tells_names(labels(a.candidates()), labels(b.candidates()));
        assert forall|i: int| 0 <= i < a.candidates().len() implies (
        #[trigger] a.candidates()[i]).function.label() == b.candidates()[i].function.label() by {
            assert(labels(a.candidates())[i] == labels(b.candidates())[i]);
        }
    }
}

} // verus!
