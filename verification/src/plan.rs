//! The order in which the requested operations run, and what each of them
//! reads.

use vstd::prelude::*;

verus! {

/// An operation of the editor.
#[derive(Clone, Copy, Debug, PartialEq, Eq, Structural)]
pub enum Operation {
    Blur,
    Brighten,
    Crop,
    Rotate,
    Invert,
    Grayscale,
    Generate,
    Fractal,
}

/// Where a step takes its image from.
#[derive(Clone, Copy, Debug, PartialEq, Eq, Structural)]
pub enum Source {
    /// The step makes its image from nothing.
    Nothing,
    /// The file that the user named as input.
    Input,
    /// The output file, as the step before left it.
    Output,
}

/// The operations that the user asked for.
#[derive(Clone, Copy, Debug)]
pub struct Selection {
    pub blur: bool,
    pub brighten: bool,
    pub crop: bool,
    pub rotate: bool,
    pub invert: bool,
    pub grayscale: bool,
    pub generate: bool,
    pub fractal: bool,
}

/// One step of a run: an operation and the image it starts from.
#[derive(Clone, Copy, Debug, PartialEq, Eq, Structural)]
pub struct Step {
    pub operation: Operation,
    pub source: Source,
}

impl Operation {
    /// The place of the operation in the fixed order of a run.
    pub open spec fn rank(self) -> int {
        match self {
            Operation::Blur => 0,
            Operation::Brighten => 1,
            Operation::Crop => 2,
            Operation::Rotate => 3,
            Operation::Invert => 4,
            Operation::Grayscale => 5,
            Operation::Generate => 6,
            Operation::Fractal => 7,
        }
    }

    /// Whether the operation works on an existing image.
    pub open spec fn reads_image(self) -> bool {
        self != Operation::Generate && self != Operation::Fractal
    }

    /// Whether the operation works on an existing image.
    pub fn takes_image(self) -> (b: bool)
        ensures
            b == self.reads_image(),
    {
        match self {
            Operation::Generate => false,
            Operation::Fractal => false,
            _ => true,
        }
    }
}

impl Selection {
    /// Whether the user asked for `operation`.
    pub open spec fn selects(self, operation: Operation) -> bool {
        match operation {
            Operation::Blur => self.blur,
            Operation::Brighten => self.brighten,
            Operation::Crop => self.crop,
            Operation::Rotate => self.rotate,
            Operation::Invert => self.invert,
            Operation::Grayscale => self.grayscale,
            Operation::Generate => self.generate,
            Operation::Fractal => self.fractal,
        }
    }
}

/// `operation` alone where `wanted`, and nothing otherwise.
pub open spec fn chosen(wanted: bool, operation: Operation) -> Seq<Operation> {
    if wanted {
        seq![operation]
    } else {
        Seq::empty()
    }
}

/// The operations of a run, in the order in which they are carried out:
/// always blur, brighten, crop, rotate, invert, grayscale, generate,
/// fractal, whatever the order in which the user named them.
pub open spec fn scheduled(sel: Selection) -> Seq<Operation> {
    chosen(sel.blur, Operation::Blur) + chosen(sel.brighten, Operation::Brighten) + chosen(
        sel.crop,
        Operation::Crop,
    ) + chosen(sel.rotate, Operation::Rotate) + chosen(sel.invert, Operation::Invert) + chosen(
        sel.grayscale,
        Operation::Grayscale,
    ) + chosen(sel.generate, Operation::Generate) + chosen(sel.fractal, Operation::Fractal)
}

/// What the step at `index` of a run reads: nothing where it makes its
/// image itself, the user's input where it comes first, and otherwise the
/// output, which the step before it has written.
pub open spec fn source_of(operation: Operation, index: int) -> Source {
    if !operation.reads_image() {
        Source::Nothing
    } else if index == 0 {
        Source::Input
    } else {
        Source::Output
    }
}

/// The steps of a run of `operations`.
pub open spec fn steps_of(operations: Seq<Operation>) -> Seq<Step> {
    Seq::new(
        operations.len(),
        |i: int| (Step { operation: operations[i], source: source_of(operations[i], i) }),
    )
}

/// Adds `operation` to the steps of a run where `wanted`.
fn push_step(steps: &mut Vec<Step>, wanted: bool, operation: Operation, Ghost(before): Ghost<
    Seq<Operation>,
>)
    requires
        old(steps)@ == steps_of(before),
    ensures
        final(steps)@ == steps_of(before + chosen(wanted, operation)),
{
    if wanted {
        let source = if !operation.takes_image() {
            Source::Nothing
        } else if steps.len() == 0 {
            Source::Input
        } else {
            Source::Output
        };
        steps.push(Step { operation, source });
        assert(steps@ =~= steps_of(before + chosen(wanted, operation)));
    } else {
        assert(before + chosen(wanted, operation) =~= before);
    }
}

/// The steps of the run that `sel` asks for.
pub fn schedule(sel: &Selection) -> (steps: Vec<Step>)
    ensures
        steps@ == steps_of(scheduled(*sel)),
{
    let mut steps: Vec<Step> = Vec::new();
    let ghost s0 = Seq::<Operation>::empty();
    assert(steps@ =~= steps_of(s0));
    push_step(&mut steps, sel.blur, Operation::Blur, Ghost(s0));
    let ghost s1 = s0 + chosen(sel.blur, Operation::Blur);
    push_step(&mut steps, sel.brighten, Operation::Brighten, Ghost(s1));
    let ghost s2 = s1 + chosen(sel.brighten, Operation::Brighten);
    push_step(&mut steps, sel.crop, Operation::Crop, Ghost(s2));
    let ghost s3 = s2 + chosen(sel.crop, Operation::Crop);
    push_step(&mut steps, sel.rotate, Operation::Rotate, Ghost(s3));
    let ghost s4 = s3 + chosen(sel.rotate, Operation::Rotate);
    push_step(&mut steps, sel.invert, Operation::Invert, Ghost(s4));
    let ghost s5 = s4 + chosen(sel.invert, Operation::Invert);
    push_step(&mut steps, sel.grayscale, Operation::Grayscale, Ghost(s5));
    let ghost s6 = s5 + chosen(sel.grayscale, Operation::Grayscale);
    push_step(&mut steps, sel.generate, Operation::Generate, Ghost(s6));
    let ghost s7 = s6 + chosen(sel.generate, Operation::Generate);
    push_step(&mut steps, sel.fractal, Operation::Fractal, Ghost(s7));
    assert(s0 + chosen(sel.blur, Operation::Blur) =~= chosen(sel.blur, Operation::Blur));
    steps
}

/// A run holds exactly the operations asked for, each once, in the fixed
/// order.
pub proof fn lemma_scheduled_in_order(sel: Selection)
    ensures
        forall|operation: Operation|
            scheduled(sel).contains(operation) <==> sel.selects(operation),
        forall|i: int, j: int|
            0 <= i < j < scheduled(sel).len() ==> scheduled(sel)[i].rank() < scheduled(sel)[j].rank(),
{
    let a = chosen(sel.blur, Operation::Blur);
    let b = a + chosen(sel.brighten, Operation::Brighten);
    let c = b + chosen(sel.crop, Operation::Crop);
    let d = c + chosen(sel.rotate, Operation::Rotate);
    let e = d + chosen(sel.invert, Operation::Invert);
    let f = e + chosen(sel.grayscale, Operation::Grayscale);
    let g = f + chosen(sel.generate, Operation::Generate);
    let h = g + chosen(sel.fractal, Operation::Fractal);
    lemma_extend(Seq::empty(), sel.blur, Operation::Blur);
    assert(Seq::<Operation>::empty() + chosen(sel.blur, Operation::Blur) =~= a);
    lemma_extend(a, sel.brighten, Operation::Brighten);
    lemma_extend(b, sel.crop, Operation::Crop);
    lemma_extend(c, sel.rotate, Operation::Rotate);
    lemma_extend(d, sel.invert, Operation::Invert);
    lemma_extend(e, sel.grayscale, Operation::Grayscale);
    lemma_extend(f, sel.generate, Operation::Generate);
    lemma_extend(g, sel.fractal, Operation::Fractal);
    assert(h == scheduled(sel));
    assert forall|operation: Operation|
        scheduled(sel).contains(operation) <==> sel.selects(operation) by {
        assert(!Seq::<Operation>::empty().contains(operation));
        assert(a.contains(operation) <==> sel.blur && operation == Operation::Blur);
        assert(b.contains(operation) <==> a.contains(operation) || (sel.brighten && operation
            == Operation::Brighten));
        assert(c.contains(operation) <==> b.contains(operation) || (sel.crop && operation
            == Operation::Crop));
        assert(d.contains(operation) <==> c.contains(operation) || (sel.rotate && operation
            == Operation::Rotate));
        assert(e.contains(operation) <==> d.contains(operation) || (sel.invert && operation
            == Operation::Invert));
        assert(f.contains(operation) <==> e.contains(operation) || (sel.grayscale && operation
            == Operation::Grayscale));
        assert(g.contains(operation) <==> f.contains(operation) || (sel.generate && operation
            == Operation::Generate));
        assert(h.contains(operation) <==> g.contains(operation) || (sel.fractal && operation
            == Operation::Fractal));
    }
}

/// Whether `s` is in the fixed order and holds only operations that come
/// before place `limit`.
pub open spec fn below(s: Seq<Operation>, limit: int) -> bool {
    &&& forall|i: int| 0 <= i < s.len() ==> (#[trigger] s[i]).rank() < limit
    &&& forall|i: int, j: int| 0 <= i < j < s.len() ==> s[i].rank() < s[j].rank()
}

/// Appending the operation of the next place keeps the order, and adds
/// that operation alone.
proof fn lemma_extend(s: Seq<Operation>, wanted: bool, operation: Operation)
    requires
        below(s, operation.rank()),
    ensures
        below(s + chosen(wanted, operation), operation.rank() + 1),
        forall|other: Operation|
            (s + chosen(wanted, operation)).contains(other) <==> s.contains(other) || (wanted
                && other == operation),
{
    let t = s + chosen(wanted, operation);
    assert forall|other: Operation|
        t.contains(other) <==> s.contains(other) || (wanted && other == operation) by {
        if s.contains(other) {
            let i = choose|i: int| 0 <= i < s.len() && s[i] == other;
            assert(t[i] == other);
        }
        if wanted && other == operation {
            assert(t[s.len() as int] == other);
        }
    }
}

} // verus!
