use vstd::prelude::*;

use crate::field::{inverse, inverse_spec, is_field, FIELD_ORDER};
use crate::target::{Target, Wire};
use crate::witness::{extends, GeneratedValues, PartitionWitness};

verus! {

/// One xorshift step on 64 bits.
pub open spec fn xorshift(s: u64) -> u64 {
    let a = s ^ (s << 13u64);
    let b = a ^ (a >> 7u64);
    b ^ (b << 17u64)
}

/// The state a sampler takes when seeded with zero.
pub const DEFAULT_SEED: u64 = 0x9e37_79b9_7f4a_7c15;

/// A deterministic source of field samples, seeded by the caller. The same seed gives the same
/// samples, so a witness with random values can be reproduced; a caller that needs the samples
/// to be unpredictable must draw the seed from a cryptographic source.
#[derive(Clone, Copy, Debug, PartialEq, Eq, Structural)]
pub struct FieldRng {
    pub state: u64,
}

impl FieldRng {
    /// A sampler seeded with `seed`. Zero is a fixed point of xorshift, so a zero seed starts
    /// from `DEFAULT_SEED` instead.
    pub fn new(seed: u64) -> (r: Self)
        ensures
            r.state == if seed == 0 {
                DEFAULT_SEED
            } else {
                seed
            },
    {
        if seed == 0 {
            FieldRng { state: DEFAULT_SEED }
        } else {
            FieldRng { state: seed }
        }
    }

    /// Advances the state by one xorshift step and reduces it into the field.
    pub fn next_field(&mut self) -> (r: u64)
        ensures
            final(self).state == xorshift(old(self).state),
            r == xorshift(old(self).state) % FIELD_ORDER,
            is_field(r),
    {
        let s = self.state;
        let a = s ^ (s << 13u64);
        let b = a ^ (a >> 7u64);
        let c = b ^ (b << 17u64);
        self.state = c;
        c % FIELD_ORDER
    }
}

/// The value a zero test writes to its dummy target: one for zero, the inverse otherwise.
pub open spec fn nonzero_dummy(v: u64) -> u64 {
    if v == 0 {
        1
    } else {
        inverse_spec(v)
    }
}

/// A generator which runs once, after its dependencies are present in the witness.
pub trait SimpleGenerator: Sized {
    spec fn spec_id(&self) -> Seq<char>;

    spec fn spec_dependencies(&self) -> Seq<Target>;

    /// The targets and field data of a well-formed generator.
    spec fn spec_wf(&self, w: PartitionWitness) -> bool;

    /// What one run appends, on a witness holding all dependencies and a sampler in `seed`.
    spec fn spec_outputs(&self, w: PartitionWitness, seed: u64) -> Seq<(Target, u64)>;

    spec fn spec_next_seed(&self, seed: u64) -> u64;

    fn id(&self) -> (r: String)
        ensures
            r@ == self.spec_id(),
    ;

    fn dependencies(&self) -> (r: Vec<Target>)
        ensures
            r@ == self.spec_dependencies(),
    ;

    fn run_once(&self, witness: &PartitionWitness, out_buffer: &mut GeneratedValues, rng: &mut FieldRng)
        requires
            witness.wf(),
            self.spec_wf(*witness),
            forall|k: int|
                0 <= k < self.spec_dependencies().len() ==> witness.populated(
                    #[trigger] self.spec_dependencies()[k],
                ),
        ensures
            final(out_buffer).target_values@ == old(out_buffer).target_values@ + self.spec_outputs(
                *witness,
                old(rng).state,
            ),
            final(rng).state == self.spec_next_seed(old(rng).state),
    ;

    fn adapter(self) -> (r: SimpleGeneratorAdapter<Self>)
        ensures
            r.inner == self,
    {
        SimpleGeneratorAdapter { inner: self }
    }
}

/// A generator that can be watched and run until it reports that it is finished.
pub trait WitnessGenerator: Sized {
    spec fn spec_id(&self) -> Seq<char>;

    spec fn spec_watch_list(&self) -> Seq<Target>;

    spec fn spec_wf(&self, w: PartitionWitness) -> bool;

    /// Whether a run on `w` finishes, and what it then appends.
    spec fn spec_finishes(&self, w: PartitionWitness) -> bool;

    spec fn spec_outputs(&self, w: PartitionWitness, seed: u64) -> Seq<(Target, u64)>;

    spec fn spec_next_seed(&self, seed: u64) -> u64;

    fn id(&self) -> (r: String)
        ensures
            r@ == self.spec_id(),
    ;

    fn watch_list(&self) -> (r: Vec<Target>)
        ensures
            r@ == self.spec_watch_list(),
    ;

    /// Runs once; `true` means the generator never needs to run again. A run that does not
    /// finish appends nothing.
    fn run(&self, witness: &PartitionWitness, out_buffer: &mut GeneratedValues, rng: &mut FieldRng) -> (r:
        bool)
        requires
            witness.wf(),
            self.spec_wf(*witness),
        ensures
            r == self.spec_finishes(*witness),
            r ==> final(out_buffer).target_values@ == old(out_buffer).target_values@
                + self.spec_outputs(*witness, old(rng).state) && final(rng).state
                == self.spec_next_seed(old(rng).state),
            !r ==> *final(out_buffer) == *old(out_buffer) && *final(rng) == *old(rng),
    ;
}

/// Runs a simple generator as a full one: it finishes the first time all of its dependencies
/// are present.
#[derive(Clone, Copy, Debug)]
pub struct SimpleGeneratorAdapter<SG: SimpleGenerator> {
    pub inner: SG,
}

impl<SG: SimpleGenerator> WitnessGenerator for SimpleGeneratorAdapter<SG> {
    open spec fn spec_id(&self) -> Seq<char> {
        self.inner.spec_id()
    }

    open spec fn spec_watch_list(&self) -> Seq<Target> {
        self.inner.spec_dependencies()
    }

    open spec fn spec_wf(&self, w: PartitionWitness) -> bool {
        &&& self.inner.spec_wf(w)
        &&& forall|k: int|
            0 <= k < self.inner.spec_dependencies().len() ==> w.valid_target(
                #[trigger] self.inner.spec_dependencies()[k],
            )
    }

    open spec fn spec_finishes(&self, w: PartitionWitness) -> bool {
        forall|k: int|
            0 <= k < self.inner.spec_dependencies().len() ==> w.populated(
                #[trigger] self.inner.spec_dependencies()[k],
            )
    }

    open spec fn spec_outputs(&self, w: PartitionWitness, seed: u64) -> Seq<(Target, u64)> {
        self.inner.spec_outputs(w, seed)
    }

    open spec fn spec_next_seed(&self, seed: u64) -> u64 {
        self.inner.spec_next_seed(seed)
    }

    fn id(&self) -> (r: String) {
        self.inner.id()
    }

    fn watch_list(&self) -> (r: Vec<Target>) {
        self.inner.dependencies()
    }

    fn run(&self, witness: &PartitionWitness, out_buffer: &mut GeneratedValues, rng: &mut FieldRng) -> (r:
        bool) {
        let deps = self.inner.dependencies();
        if witness.contains_all(deps.as_slice()) {
            self.inner.run_once(witness, out_buffer, rng);
            true
        } else {
            false
        }
    }
}

/// Copies the value of one target to another.
#[derive(Clone, Copy, Debug, PartialEq, Eq, Structural)]
pub struct CopyGenerator {
    pub src: Target,
    pub dst: Target,
}

impl SimpleGenerator for CopyGenerator {
    open spec fn spec_id(&self) -> Seq<char> {
        "CopyGenerator"@
    }

    open spec fn spec_dependencies(&self) -> Seq<Target> {
        seq![self.src]
    }

    open spec fn spec_wf(&self, w: PartitionWitness) -> bool {
        w.valid_target(self.src) && w.valid_target(self.dst)
    }

    open spec fn spec_outputs(&self, w: PartitionWitness, seed: u64) -> Seq<(Target, u64)> {
        seq![(self.dst, w.value(self.src))]
    }

    open spec fn spec_next_seed(&self, seed: u64) -> u64 {
        seed
    }

    fn id(&self) -> (r: String) {
        let r = String::from_str("CopyGenerator");
        proof { reveal_strlit("CopyGenerator"); }
        r
    }

    fn dependencies(&self) -> (r: Vec<Target>) {
        let mut r: Vec<Target> = Vec::new();
        r.push(self.src);
        r
    }

    fn run_once(&self, witness: &PartitionWitness, out_buffer: &mut GeneratedValues, rng: &mut FieldRng) {
        assert(witness.populated(self.spec_dependencies()[0]));
        let value = witness.get(self.src);
        out_buffer.set_target(self.dst, value);
    }
}

/// Writes a sampled field element to a target.
#[derive(Clone, Copy, Debug, PartialEq, Eq, Structural)]
pub struct RandomValueGenerator {
    pub target: Target,
}

impl SimpleGenerator for RandomValueGenerator {
    open spec fn spec_id(&self) -> Seq<char> {
        "RandomValueGenerator"@
    }

    open spec fn spec_dependencies(&self) -> Seq<Target> {
        Seq::empty()
    }

    open spec fn spec_wf(&self, w: PartitionWitness) -> bool {
        w.valid_target(self.target)
    }

    open spec fn spec_outputs(&self, w: PartitionWitness, seed: u64) -> Seq<(Target, u64)> {
        seq![(self.target, xorshift(seed) % FIELD_ORDER)]
    }

    open spec fn spec_next_seed(&self, seed: u64) -> u64 {
        xorshift(seed)
    }

    fn id(&self) -> (r: String) {
        let r = String::from_str("RandomValueGenerator");
        proof { reveal_strlit("RandomValueGenerator"); }
        r
    }

    fn dependencies(&self) -> (r: Vec<Target>) {
        Vec::new()
    }

    fn run_once(&self, witness: &PartitionWitness, out_buffer: &mut GeneratedValues, rng: &mut FieldRng) {
        let random_value = rng.next_field();
        out_buffer.set_target(self.target, random_value);
    }
}

/// Writes to `dummy` one when `to_test` is zero, and the inverse of `to_test` otherwise.
#[derive(Clone, Copy, Debug, PartialEq, Eq, Structural)]
pub struct NonzeroTestGenerator {
    pub to_test: Target,
    pub dummy: Target,
}

impl SimpleGenerator for NonzeroTestGenerator {
    open spec fn spec_id(&self) -> Seq<char> {
        "NonzeroTestGenerator"@
    }

    open spec fn spec_dependencies(&self) -> Seq<Target> {
        seq![self.to_test]
    }

    open spec fn spec_wf(&self, w: PartitionWitness) -> bool {
        w.valid_target(self.to_test) && w.valid_target(self.dummy)
    }

    open spec fn spec_outputs(&self, w: PartitionWitness, seed: u64) -> Seq<(Target, u64)> {
        seq![(self.dummy, nonzero_dummy(w.value(self.to_test)))]
    }

    open spec fn spec_next_seed(&self, seed: u64) -> u64 {
        seed
    }

    fn id(&self) -> (r: String) {
        let r = String::from_str("NonzeroTestGenerator");
        proof { reveal_strlit("NonzeroTestGenerator"); }
        r
    }

    fn dependencies(&self) -> (r: Vec<Target>) {
        let mut r: Vec<Target> = Vec::new();
        r.push(self.to_test);
        r
    }

    fn run_once(&self, witness: &PartitionWitness, out_buffer: &mut GeneratedValues, rng: &mut FieldRng) {
        assert(witness.populated(self.spec_dependencies()[0]));
        let to_test_value = witness.get(self.to_test);
        let dummy_value = if to_test_value == 0 {
            1
        } else {
            inverse(to_test_value)
        };
        out_buffer.set_target(self.dummy, dummy_value);
    }
}

/// Fills the wire of an extra constant.
#[derive(Clone, Copy, Debug, PartialEq, Eq, Structural)]
pub struct ConstantGenerator {
    pub row: usize,
    pub constant_index: usize,
    pub wire_index: usize,
    pub constant: u64,
}

impl ConstantGenerator {
    pub fn set_constant(&mut self, c: u64)
        ensures
            *final(self) == (ConstantGenerator { constant: c, ..*old(self) }),
    {
        self.constant = c;
    }
}

impl SimpleGenerator for ConstantGenerator {
    open spec fn spec_id(&self) -> Seq<char> {
        "ConstantGenerator"@
    }

    open spec fn spec_dependencies(&self) -> Seq<Target> {
        Seq::empty()
    }

    open spec fn spec_wf(&self, w: PartitionWitness) -> bool {
        w.valid_target(Target::Wire(Wire { row: self.row, column: self.wire_index })) && is_field(
            self.constant,
        )
    }

    open spec fn spec_outputs(&self, w: PartitionWitness, seed: u64) -> Seq<(Target, u64)> {
        seq![(Target::Wire(Wire { row: self.row, column: self.wire_index }), self.constant)]
    }

    open spec fn spec_next_seed(&self, seed: u64) -> u64 {
        seed
    }

    fn id(&self) -> (r: String) {
        let r = String::from_str("ConstantGenerator");
        proof { reveal_strlit("ConstantGenerator"); }
        r
    }

    fn dependencies(&self) -> (r: Vec<Target>) {
        Vec::new()
    }

    fn run_once(&self, witness: &PartitionWitness, out_buffer: &mut GeneratedValues, rng: &mut FieldRng) {
        out_buffer.set_target(Target::wire(self.row, self.wire_index), self.constant);
    }
}

/// The generators this engine knows.
#[derive(Clone, Copy, Debug, PartialEq, Eq, Structural)]
pub enum GeneratorKind {
    Copy(CopyGenerator),
    RandomValue(RandomValueGenerator),
    NonzeroTest(NonzeroTestGenerator),
    Constant(ConstantGenerator),
}

/// A generator that can stand in a generator list.
pub trait AnyWitnessGenerator: WitnessGenerator {
    spec fn spec_kind(&self) -> GeneratorKind;

    /// The generator as one of the known kinds: the same id, the same watch list, and the same
    /// runs on every witness.
    fn as_any(&self) -> (r: GeneratorKind)
        ensures
            r == self.spec_kind(),
            WitnessGeneratorRef(r).spec_id() == self.spec_id(),
            WitnessGeneratorRef(r).spec_watch_list() == self.spec_watch_list(),
            forall|w: PartitionWitness| #[trigger]
                WitnessGeneratorRef(r).spec_finishes(w) == self.spec_finishes(w),
            forall|w: PartitionWitness, seed: u64| #[trigger]
                WitnessGeneratorRef(r).spec_outputs(w, seed) == self.spec_outputs(w, seed),
    ;
}

impl AnyWitnessGenerator for SimpleGeneratorAdapter<CopyGenerator> {
    open spec fn spec_kind(&self) -> GeneratorKind {
        GeneratorKind::Copy(self.inner)
    }

    fn as_any(&self) -> (r: GeneratorKind) {
        GeneratorKind::Copy(self.inner)
    }
}

impl AnyWitnessGenerator for SimpleGeneratorAdapter<RandomValueGenerator> {
    open spec fn spec_kind(&self) -> GeneratorKind {
        GeneratorKind::RandomValue(self.inner)
    }

    fn as_any(&self) -> (r: GeneratorKind) {
        GeneratorKind::RandomValue(self.inner)
    }
}

impl AnyWitnessGenerator for SimpleGeneratorAdapter<NonzeroTestGenerator> {
    open spec fn spec_kind(&self) -> GeneratorKind {
        GeneratorKind::NonzeroTest(self.inner)
    }

    fn as_any(&self) -> (r: GeneratorKind) {
        GeneratorKind::NonzeroTest(self.inner)
    }
}

impl AnyWitnessGenerator for SimpleGeneratorAdapter<ConstantGenerator> {
    open spec fn spec_kind(&self) -> GeneratorKind {
        GeneratorKind::Constant(self.inner)
    }

    fn as_any(&self) -> (r: GeneratorKind) {
        GeneratorKind::Constant(self.inner)
    }
}

/// A generator of any known kind, as the engine stores it.
#[derive(Clone, Copy, Debug, PartialEq, Eq, Structural)]
pub struct WitnessGeneratorRef(pub GeneratorKind);

impl WitnessGeneratorRef {
    pub fn new<G: AnyWitnessGenerator>(generator: G) -> (r: WitnessGeneratorRef)
        ensures
            r.0 == generator.spec_kind(),
            r.spec_id() == generator.spec_id(),
            r.spec_watch_list() == generator.spec_watch_list(),
            forall|w: PartitionWitness| #[trigger] r.spec_finishes(w) == generator.spec_finishes(w),
            forall|w: PartitionWitness, seed: u64| #[trigger]
                r.spec_outputs(w, seed) == generator.spec_outputs(w, seed),
    {
        WitnessGeneratorRef(generator.as_any())
    }

    pub open spec fn spec_id(&self) -> Seq<char> {
        match self.0 {
            GeneratorKind::Copy(g) => (SimpleGeneratorAdapter { inner: g }).spec_id(),
            GeneratorKind::RandomValue(g) => (SimpleGeneratorAdapter { inner: g }).spec_id(),
            GeneratorKind::NonzeroTest(g) => (SimpleGeneratorAdapter { inner: g }).spec_id(),
            GeneratorKind::Constant(g) => (SimpleGeneratorAdapter { inner: g }).spec_id(),
        }
    }

    pub open spec fn spec_watch_list(&self) -> Seq<Target> {
        match self.0 {
            GeneratorKind::Copy(g) => (SimpleGeneratorAdapter { inner: g }).spec_watch_list(),
            GeneratorKind::RandomValue(g) => (SimpleGeneratorAdapter { inner: g }).spec_watch_list(),
            GeneratorKind::NonzeroTest(g) => (SimpleGeneratorAdapter { inner: g }).spec_watch_list(),
            GeneratorKind::Constant(g) => (SimpleGeneratorAdapter { inner: g }).spec_watch_list(),
        }
    }

    pub open spec fn spec_wf(&self, w: PartitionWitness) -> bool {
        match self.0 {
            GeneratorKind::Copy(g) => (SimpleGeneratorAdapter { inner: g }).spec_wf(w),
            GeneratorKind::RandomValue(g) => (SimpleGeneratorAdapter { inner: g }).spec_wf(w),
            GeneratorKind::NonzeroTest(g) => (SimpleGeneratorAdapter { inner: g }).spec_wf(w),
            GeneratorKind::Constant(g) => (SimpleGeneratorAdapter { inner: g }).spec_wf(w),
        }
    }

    pub open spec fn spec_finishes(&self, w: PartitionWitness) -> bool {
        match self.0 {
            GeneratorKind::Copy(g) => (SimpleGeneratorAdapter { inner: g }).spec_finishes(w),
            GeneratorKind::RandomValue(g) => (SimpleGeneratorAdapter { inner: g }).spec_finishes(w),
            GeneratorKind::NonzeroTest(g) => (SimpleGeneratorAdapter { inner: g }).spec_finishes(w),
            GeneratorKind::Constant(g) => (SimpleGeneratorAdapter { inner: g }).spec_finishes(w),
        }
    }

    pub open spec fn spec_outputs(&self, w: PartitionWitness, seed: u64) -> Seq<(Target, u64)> {
        match self.0 {
            GeneratorKind::Copy(g) => (SimpleGeneratorAdapter { inner: g }).spec_outputs(w, seed),
            GeneratorKind::RandomValue(g) => (SimpleGeneratorAdapter { inner: g }).spec_outputs(w, seed),
            GeneratorKind::NonzeroTest(g) => (SimpleGeneratorAdapter { inner: g }).spec_outputs(w, seed),
            GeneratorKind::Constant(g) => (SimpleGeneratorAdapter { inner: g }).spec_outputs(w, seed),
        }
    }

    pub open spec fn spec_next_seed(&self, seed: u64) -> u64 {
        match self.0 {
            GeneratorKind::Copy(g) => (SimpleGeneratorAdapter { inner: g }).spec_next_seed(seed),
            GeneratorKind::RandomValue(g) => (SimpleGeneratorAdapter { inner: g }).spec_next_seed(seed),
            GeneratorKind::NonzeroTest(g) => (SimpleGeneratorAdapter { inner: g }).spec_next_seed(seed),
            GeneratorKind::Constant(g) => (SimpleGeneratorAdapter { inner: g }).spec_next_seed(seed),
        }
    }

    /// The one target a run of the generator writes.
    pub open spec fn output_target(&self) -> Target {
        match self.0 {
            GeneratorKind::Copy(g) => g.dst,
            GeneratorKind::RandomValue(g) => g.target,
            GeneratorKind::NonzeroTest(g) => g.dummy,
            GeneratorKind::Constant(g) => Target::Wire(Wire { row: g.row, column: g.wire_index }),
        }
    }

    /// What holds of the witness once the generator has finished: its dependencies and its
    /// output are present, and the output has the value the generator computes.
    pub open spec fn spec_done(&self, w: PartitionWitness) -> bool {
        match self.0 {
            GeneratorKind::Copy(g) => w.populated(g.src) && w.populated(g.dst) && w.value(g.dst)
                == w.value(g.src),
            GeneratorKind::RandomValue(g) => w.populated(g.target),
            GeneratorKind::NonzeroTest(g) => w.populated(g.to_test) && w.populated(g.dummy)
                && w.value(g.dummy) == nonzero_dummy(w.value(g.to_test)),
            GeneratorKind::Constant(g) => {
                let t = Target::Wire(Wire { row: g.row, column: g.wire_index });
                w.populated(t) && w.value(t) == g.constant
            },
        }
    }

    pub fn id(&self) -> (r: String)
        ensures
            r@ == self.spec_id(),
    {
        match self.0 {
            GeneratorKind::Copy(g) => SimpleGeneratorAdapter { inner: g }.id(),
            GeneratorKind::RandomValue(g) => SimpleGeneratorAdapter { inner: g }.id(),
            GeneratorKind::NonzeroTest(g) => SimpleGeneratorAdapter { inner: g }.id(),
            GeneratorKind::Constant(g) => SimpleGeneratorAdapter { inner: g }.id(),
        }
    }

    pub fn watch_list(&self) -> (r: Vec<Target>)
        ensures
            r@ == self.spec_watch_list(),
    {
        match self.0 {
            GeneratorKind::Copy(g) => SimpleGeneratorAdapter { inner: g }.watch_list(),
            GeneratorKind::RandomValue(g) => SimpleGeneratorAdapter { inner: g }.watch_list(),
            GeneratorKind::NonzeroTest(g) => SimpleGeneratorAdapter { inner: g }.watch_list(),
            GeneratorKind::Constant(g) => SimpleGeneratorAdapter { inner: g }.watch_list(),
        }
    }

    /// Runs the generator once; see `WitnessGenerator::run`.
    pub fn run(&self, witness: &PartitionWitness, out_buffer: &mut GeneratedValues, rng: &mut FieldRng) -> (r:
        bool)
        requires
            witness.wf(),
            self.spec_wf(*witness),
        ensures
            r == self.spec_finishes(*witness),
            r ==> final(out_buffer).target_values@ == old(out_buffer).target_values@
                + self.spec_outputs(*witness, old(rng).state) && final(rng).state
                == self.spec_next_seed(old(rng).state),
            !r ==> *final(out_buffer) == *old(out_buffer) && *final(rng) == *old(rng),
    {
        match self.0 {
            GeneratorKind::Copy(g) => SimpleGeneratorAdapter { inner: g }.run(witness, out_buffer, rng),
            GeneratorKind::RandomValue(g) => SimpleGeneratorAdapter { inner: g }.run(witness, out_buffer, rng),
            GeneratorKind::NonzeroTest(g) => SimpleGeneratorAdapter { inner: g }.run(witness, out_buffer, rng),
            GeneratorKind::Constant(g) => SimpleGeneratorAdapter { inner: g }.run(witness, out_buffer, rng),
        }
    }
}

/// The targets a generator watches have cells in the witness.
pub proof fn lemma_watch_list_valid(g: WitnessGeneratorRef, w: PartitionWitness, k: int)
    requires
        g.spec_wf(w),
        0 <= k < g.spec_watch_list().len(),
    ensures
        w.valid_target(g.spec_watch_list()[k]),
{
}

impl WitnessGeneratorRef {
    /// A generator finishes exactly when every target it watches is populated.
    pub proof fn lemma_finishes_iff_watched(&self, w: PartitionWitness)
        ensures
            self.spec_finishes(w) == forall|k: int|
                0 <= k < self.spec_watch_list().len() ==> w.populated(
                    #[trigger] self.spec_watch_list()[k],
                ),
    {
    }

    /// A write that makes a generator able to finish populated the representative of one of
    /// the targets it watches.
    pub proof fn lemma_newly_finishing(&self, w: PartitionWitness, w2: PartitionWitness, r: int)
        requires
            w.wf(),
            self.spec_wf(w),
            w2.representative_map@ == w.representative_map@,
            w2.num_wires == w.num_wires,
            w2.degree == w.degree,
            0 <= r < w.values@.len(),
            w.values@[r] is None,
            w2.values@ == w.values@.update(r, w2.values@[r]),
            !self.spec_finishes(w),
            self.spec_finishes(w2),
        ensures
            exists|k: int|
                0 <= k < self.spec_watch_list().len() && w.rep(#[trigger] self.spec_watch_list()[k])
                    == r,
    {
        self.lemma_finishes_iff_watched(w);
        self.lemma_finishes_iff_watched(w2);
        let wl = self.spec_watch_list();
        let k = choose|k: int| 0 <= k < wl.len() && !w.populated(#[trigger] wl[k]);
        assert(w2.populated(wl[k]));
        lemma_watch_list_valid(*self, w, k);
        assert(w.representative_map@[w.idx(wl[k]) as int] < w.representative_map@.len());
        assert(w.rep(wl[k]) == r);
    }
}

/// A populated target keeps its value in any witness that extends this one.
pub proof fn lemma_read_stable(w: PartitionWitness, w2: PartitionWitness, t: Target)
    requires
        w.wf(),
        w.valid_target(t),
        w.populated(t),
        w2.representative_map@ == w.representative_map@,
        w2.num_wires == w.num_wires,
        w2.degree == w.degree,
        extends(w.values@, w2.values@),
    ensures
        w2.valid_target(t),
        w2.read(t) == w.read(t),
{
    assert(w.representative_map@[w.idx(t) as int] < w.representative_map@.len());
}

impl WitnessGeneratorRef {
    /// The outputs of a run are valid targets holding field elements.
    pub proof fn lemma_outputs_valid(&self, w: PartitionWitness, seed: u64)
        requires
            w.wf(),
            self.spec_wf(w),
            self.spec_finishes(w),
        ensures
            forall|k: int|
                0 <= k < self.spec_outputs(w, seed).len() ==> w.valid_target(
                    (#[trigger] self.spec_outputs(w, seed)[k]).0,
                ) && is_field(self.spec_outputs(w, seed)[k].1),
    {
        match self.0 {
            GeneratorKind::Copy(g) => {
                assert(w.populated(g.spec_dependencies()[0]));
                assert(w.representative_map@[w.idx(g.src) as int] < w.representative_map@.len());
            },
            GeneratorKind::RandomValue(g) => {},
            GeneratorKind::NonzeroTest(g) => {
                assert(w.populated(g.spec_dependencies()[0]));
                assert(w.representative_map@[w.idx(g.to_test) as int] < w.representative_map@.len());
                assert(is_field(nonzero_dummy(w.value(g.to_test))));
            },
            GeneratorKind::Constant(g) => {},
        }
    }

    /// A run that finishes writes exactly one value, to the generator's output target.
    pub proof fn lemma_single_output(&self, w: PartitionWitness, seed: u64)
        ensures
            self.spec_outputs(w, seed).len() == 1,
            self.spec_outputs(w, seed)[0].0 == self.output_target(),
    {
    }

    /// A done generator could finish on the same witness.
    pub proof fn lemma_done_finishes(&self, w: PartitionWitness)
        requires
            self.spec_done(w),
        ensures
            self.spec_finishes(w),
    {
        self.lemma_finishes_iff_watched(w);
    }

    /// A finished generator stays done as the witness grows.
    pub proof fn lemma_done_stable(&self, w: PartitionWitness, w2: PartitionWitness)
        requires
            w.wf(),
            self.spec_wf(w),
            self.spec_done(w),
            w2.representative_map@ == w.representative_map@,
            w2.num_wires == w.num_wires,
            w2.degree == w.degree,
            extends(w.values@, w2.values@),
        ensures
            self.spec_wf(w2),
            self.spec_done(w2),
    {
        match self.0 {
            GeneratorKind::Copy(g) => {
                lemma_read_stable(w, w2, g.src);
                lemma_read_stable(w, w2, g.dst);
            },
            GeneratorKind::RandomValue(g) => {
                lemma_read_stable(w, w2, g.target);
            },
            GeneratorKind::NonzeroTest(g) => {
                lemma_read_stable(w, w2, g.to_test);
                lemma_read_stable(w, w2, g.dummy);
            },
            GeneratorKind::Constant(g) => {
                lemma_read_stable(w, w2, Target::Wire(Wire { row: g.row, column: g.wire_index }));
            },
        }
    }

    /// A run that finished on `w`, whose outputs were then all written into `w2`, leaves the
    /// generator done in `w2`.
    pub proof fn lemma_done_after_run(&self, w: PartitionWitness, w2: PartitionWitness, seed: u64)
        requires
            w.wf(),
            self.spec_wf(w),
            self.spec_finishes(w),
            w2.representative_map@ == w.representative_map@,
            w2.num_wires == w.num_wires,
            w2.degree == w.degree,
            extends(w.values@, w2.values@),
            forall|k: int|
                0 <= k < self.spec_outputs(w, seed).len() ==> w2.read(
                    (#[trigger] self.spec_outputs(w, seed)[k]).0,
                ) == Some(self.spec_outputs(w, seed)[k].1),
        ensures
            self.spec_done(w2),
    {
        let o = self.spec_outputs(w, seed);
        assert(w2.read(o[0].0) == Some(o[0].1));
        match self.0 {
            GeneratorKind::Copy(g) => {
                assert(w.populated(g.spec_dependencies()[0]));
                lemma_read_stable(w, w2, g.src);
            },
            GeneratorKind::RandomValue(g) => {},
            GeneratorKind::NonzeroTest(g) => {
                assert(w.populated(g.spec_dependencies()[0]));
                lemma_read_stable(w, w2, g.to_test);
            },
            GeneratorKind::Constant(g) => {},
        }
    }
}

} // verus!
