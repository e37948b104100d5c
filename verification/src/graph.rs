//! The passes that a frame goes through, in order.
use vstd::prelude::*;

verus! {

#[derive(Debug, Clone, Copy, PartialEq, Eq, Structural)]
pub enum RenderPassKind {
    ImportFrame,
    NeuralUpscale,
    PlaneSampling,
    ChromaReconstruction,
    DoviReshape,
    TransferDecode,
    GamutMap,
    ToneMap,
    Scale,
    OverlayComposite,
    Dither,
    OutputTransform,
}

/// One pass, with a label for debuggers.
#[derive(Debug, Clone, PartialEq, Eq)]
pub struct RenderPass {
    pub kind: RenderPassKind,
    pub label: &'static str,
}

impl RenderPass {
    pub fn new(kind: RenderPassKind, label: &'static str) -> (pass: Self)
        ensures
            pass.kind == kind,
            pass.label == label,
    {
        RenderPass { kind, label }
    }
}

/// The passes of a frame.
#[derive(Debug, Clone, PartialEq, Eq)]
pub struct RenderGraph {
    passes: Vec<RenderPass>,
}

impl View for RenderGraph {
    type V = Seq<RenderPass>;

    closed spec fn view(&self) -> Seq<RenderPass> {
        self.passes@
    }
}

impl Default for RenderGraph {
    fn default() -> (graph: Self)
        ensures
            graph@ == Seq::<RenderPass>::empty(),
    {
        RenderGraph { passes: Vec::new() }
    }
}

impl RenderGraph {
    /// The kinds of the passes, in order.
    pub open spec fn kinds(self) -> Seq<RenderPassKind> {
        self@.map_values(|pass: RenderPass| pass.kind)
    }

    /// Every pass has the label of its kind.
    pub open spec fn labelled(self) -> bool {
        forall|i: int| 0 <= i < self@.len() ==> (#[trigger] self@[i]).label@ == label(self@[i].kind)
    }

    pub fn new() -> (graph: Self)
        ensures
            graph@ == Seq::<RenderPass>::empty(),
    {
        RenderGraph { passes: Vec::new() }
    }

    pub fn push(&mut self, pass: RenderPass)
        ensures
            final(self)@ == old(self)@.push(pass),
    {
        self.passes.push(pass);
    }

    pub fn passes(&self) -> (passes: &[RenderPass])
        ensures
            passes@ == self@,
    {
        self.passes.as_slice()
    }

    /// Whether any pass is of this kind.
    pub fn contains(&self, kind: RenderPassKind) -> (found: bool)
        ensures
            found == self.kinds().contains(kind),
    {
        let mut i: usize = 0;
        while i < self.passes.len()
            invariant
                i <= self.passes@.len(),
                self@ == self.passes@,
                forall|k: int| 0 <= k < i ==> (#[trigger] self.passes@[k]).kind != kind,
            decreases self.passes@.len() - i,
        {
            if self.passes[i].kind == kind {
                proof {
                    assert(self.kinds()[i as int] == kind);
                }
                return true;
            }
            i = i + 1;
        }
        proof {
            assert forall|k: int| 0 <= k < self.kinds().len() implies self.kinds()[k] != kind by {
                assert(self.passes@[k].kind != kind);
            }
        }
        false
    }
}

/// The label of a kind of pass.
pub open spec fn label(kind: RenderPassKind) -> Seq<char> {
    match kind {
        RenderPassKind::ImportFrame => "import frame"@,
        RenderPassKind::NeuralUpscale => "neural luma upscale"@,
        RenderPassKind::PlaneSampling => "sample YCbCr planes"@,
        RenderPassKind::ChromaReconstruction => "reconstruct chroma"@,
        RenderPassKind::DoviReshape => "reshape dolby vision signal"@,
        RenderPassKind::TransferDecode => "decode transfer function"@,
        RenderPassKind::GamutMap => "map gamut"@,
        RenderPassKind::ToneMap => "tone map"@,
        RenderPassKind::Scale => "scale"@,
        RenderPassKind::OverlayComposite => "composite overlays"@,
        RenderPassKind::Dither => "dither"@,
        RenderPassKind::OutputTransform => "output transform"@,
    }
}

/// What decides which optional passes a frame needs.
#[derive(Debug, Clone, Copy, PartialEq, Eq, Structural)]
pub struct GraphNeeds {
    pub upscale: bool,
    pub reshape: bool,
    pub gamut_map: bool,
    pub tone_map: bool,
    pub scale: bool,
}

/// A pass that is there where it is needed.
pub open spec fn optional(needed: bool, kind: RenderPassKind) -> Seq<RenderPassKind> {
    if needed {
        seq![kind]
    } else {
        seq![]
    }
}

/// The kinds of the passes that a frame needs, in order.
pub open spec fn needed_kinds(needs: GraphNeeds) -> Seq<RenderPassKind> {
    seq![RenderPassKind::ImportFrame] + optional(needs.upscale, RenderPassKind::NeuralUpscale)
        + seq![RenderPassKind::PlaneSampling, RenderPassKind::ChromaReconstruction] + optional(
        needs.reshape,
        RenderPassKind::DoviReshape,
    ) + seq![RenderPassKind::TransferDecode] + optional(needs.gamut_map, RenderPassKind::GamutMap)
        + optional(needs.tone_map, RenderPassKind::ToneMap) + optional(
        needs.scale,
        RenderPassKind::Scale,
    ) + seq![
        RenderPassKind::OverlayComposite,
        RenderPassKind::Dither,
        RenderPassKind::OutputTransform,
    ]
}

fn add(graph: &mut RenderGraph, kind: RenderPassKind, name: &'static str)
    requires
        old(graph).labelled(),
        name@ == label(kind),
    ensures
        final(graph).labelled(),
        final(graph).kinds() == old(graph).kinds().push(kind),
{
    let ghost before = graph@;
    graph.push(RenderPass::new(kind, name));
    proof {
        assert(graph.kinds() =~= old(graph).kinds().push(kind));
        assert forall|i: int| 0 <= i < graph@.len() implies (#[trigger] graph@[i]).label@ == label(
            graph@[i].kind,
        ) by {
            if i < before.len() {
                assert(before[i].label@ == label(before[i].kind));
            }
        }
    }
}

/// Builds the graph of a frame.
pub fn build_graph(needs: GraphNeeds) -> (graph: RenderGraph)
    ensures
        graph.kinds() == needed_kinds(needs),
        graph.labelled(),
{
    let mut graph = RenderGraph::new();
    proof {
        assert(graph.kinds() =~= seq![]);
    }
    self::add(&mut graph, RenderPassKind::ImportFrame, "import frame");
    if needs.upscale {
        self::add(&mut graph, RenderPassKind::NeuralUpscale, "neural luma upscale");
    }
    self::add(&mut graph, RenderPassKind::PlaneSampling, "sample YCbCr planes");
    self::add(&mut graph, RenderPassKind::ChromaReconstruction, "reconstruct chroma");
    if needs.reshape {
        self::add(&mut graph, RenderPassKind::DoviReshape, "reshape dolby vision signal");
    }
    self::add(&mut graph, RenderPassKind::TransferDecode, "decode transfer function");
    if needs.gamut_map {
        self::add(&mut graph, RenderPassKind::GamutMap, "map gamut");
    }
    if needs.tone_map {
        self::add(&mut graph, RenderPassKind::ToneMap, "tone map");
    }
    if needs.scale {
        self::add(&mut graph, RenderPassKind::Scale, "scale");
    }
    self::add(&mut graph, RenderPassKind::OverlayComposite, "composite overlays");
    self::add(&mut graph, RenderPassKind::Dither, "dither");
    self::add(&mut graph, RenderPassKind::OutputTransform, "output transform");
    proof {
        assert(graph.kinds() =~= needed_kinds(needs));
    }
    graph
}

/// Whatever a frame needs, its graph starts with the import and ends with the
/// output transform, and an optional pass is in it exactly where it is needed.
pub proof fn law_graph_holds_what_is_needed(needs: GraphNeeds)
    ensures
        needed_kinds(needs).first() == RenderPassKind::ImportFrame,
        needed_kinds(needs).last() == RenderPassKind::OutputTransform,
        needed_kinds(needs).contains(RenderPassKind::NeuralUpscale) == needs.upscale,
        needed_kinds(needs).contains(RenderPassKind::DoviReshape) == needs.reshape,
        needed_kinds(needs).contains(RenderPassKind::GamutMap) == needs.gamut_map,
        needed_kinds(needs).contains(RenderPassKind::ToneMap) == needs.tone_map,
        needed_kinds(needs).contains(RenderPassKind::Scale) == needs.scale,
{
    let all = needed_kinds(needs);
    let a = if needs.upscale {
        1int
    } else {
        0
    };
    let b = if needs.reshape {
        1int
    } else {
        0
    };
    let c = if needs.gamut_map {
        1int
    } else {
        0
    };
    let d = if needs.tone_map {
        1int
    } else {
        0
    };
    if needs.upscale {
        assert(all[1] == RenderPassKind::NeuralUpscale);
    }
    if needs.reshape {
        assert(all[3 + a] == RenderPassKind::DoviReshape);
    }
    if needs.gamut_map {
        assert(all[4 + a + b] == RenderPassKind::GamutMap);
    }
    if needs.tone_map {
        assert(all[4 + a + b + c] == RenderPassKind::ToneMap);
    }
    if needs.scale {
        assert(all[4 + a + b + c + d] == RenderPassKind::Scale);
    }
}

} // verus!
