//! Building the whole E4B graph from weights that are held on the host.
use vstd::prelude::*;
use crate::config::Gemma4Config;
use crate::e4b_build::{check_input_norms, BuildError, GraphBuild, LayerFacts, LayerIn, Start};
use crate::e4b_emit::{twin_models, Lists, Target, Toolkit};
use crate::e4b_head::{final_hid, has_verify, overlays, verify_rows, E4bGraph, Softcap};
use crate::e4b_ir::{pass_models, Arg, Bind, Pass, Uniform};
use crate::e4b_layer::{EmitCfg, Table};
use crate::e4b_lora::{E4bLora, E4bLoraLayer, LoraMeta};
use crate::e4b_session::Gemma4E4bWgpu;
use crate::e4b_sizes::SessionStart;
use crate::e4b_weights::{E4bHostWeights, LinFacts, ProjEnv, Tally};

verus! {

/// A graph's weights, its adapter, and what the kernels say of each matrix. `eps`,
/// `embed_scale`, `pli_sa` and `pli_sb` hold the bits of `f32` values.
pub struct HostBuild<'a> {
    pub config: &'a Gemma4Config,
    pub kit: &'a Toolkit,
    pub env: ProjEnv,
    pub max_seq: usize,
    pub prefill_m: usize,
    pub weights: &'a E4bHostWeights,
    pub plmp_facts: LinFacts,
    pub facts: &'a Vec<LayerFacts>,
    pub lora: Option<&'a E4bLora>,
    /// The token routing of an adapter for a decode row and for prefill rows.
    pub meta: &'a LoraMeta,
    pub prefill_meta: &'a LoraMeta,
    pub eps: u32,
    pub embed_scale: u32,
    pub pli_sa: u32,
    pub pli_sb: u32,
    pub cap: Softcap,
    /// The logits are capped while the best token is picked.
    pub fused_head: bool,
}

/// The first layer whose input norm is not as long as the hidden state.
pub open spec fn bad_norm(w: E4bHostWeights, hidden: int, i: int) -> Option<int>
    decreases w.layers@.len() - i,
{
    if i >= w.layers@.len() {
        None
    } else if w.layers@[i].input_ln@.len() != hidden {
        Some(i)
    } else {
        bad_norm(w, hidden, i + 1)
    }
}

/// The lists and the tally with one more layer, or why it cannot be added.
#[verifier::opaque]
pub open spec fn one_more(
    l: LayerIn,
    cfg: EmitCfg,
    li: usize,
    so_far: (Lists, Tally),
    m: usize,
) -> Result<(Lists, Tally), BuildError> {
    match l.error(cfg, li, so_far.1, m) {
        Some(e) => Err(e),
        None => {
            let p = l.all_placed(li, so_far.1)->Ok_0;
            Ok((l.lists(so_far.0, cfg, li, p.0, m), p.1))
        },
    }
}

impl<'a> HostBuild<'a> {
    pub open spec fn start(&self) -> Start<'a> {
        Start {
            config: self.config,
            kit: self.kit,
            env: self.env,
            max_seq: self.max_seq,
            prefill_m: self.prefill_m,
            host_layers: Some(self.weights.layers@.len() as usize),
            lora_layers: match self.lora {
                Some(l) => Some(l.spec_layers().len() as usize),
                None => None,
            },
            embed_len: self.weights.embed@.len() as usize,
            ple_len: self.weights.embed_per_layer@.len() as usize,
            plmp: &self.weights.per_layer_model_projection,
            plmp_facts: self.plmp_facts,
            eps: self.eps,
            embed_scale: self.embed_scale,
            pli_sa: self.pli_sa,
            pli_sb: self.pli_sb,
        }
    }

    pub open spec fn wf(&self) -> bool {
        &&& self.config.wf()
        &&& self.facts@.len() == self.weights.layers@.len()
    }

    pub open spec fn adapter(&self, i: int) -> Option<&'a E4bLoraLayer> {
        match self.lora {
            Some(l) => Some(&l.spec_layers()[i]),
            None => None,
        }
    }

    pub open spec fn layer(&self, i: int) -> LayerIn<'a> {
        LayerIn {
            config: self.config,
            kit: self.kit,
            env: self.env,
            hl: &self.weights.layers@[i],
            facts: self.facts@[i],
            lora: self.adapter(i),
            meta: self.meta,
            prefill_meta: self.prefill_meta,
        }
    }

    /// The lists and the tally after the first `n` layers, or why they cannot be built: the
    /// start is looked at first, then all input norms, then layer by layer.
    #[verifier::opaque]
    pub open spec fn after(&self, n: int) -> Result<(Lists, Tally), BuildError>
        decreases n,
    {
        let s = self.start();
        if s.error() is Some {
            Err(s.error()->0)
        } else if bad_norm(*self.weights, self.config.hidden_size as int, 0) is Some {
            Err(
                BuildError::InputNorm(
                    bad_norm(*self.weights, self.config.hidden_size as int, 0)->0 as usize,
                ),
            )
        } else if n <= 0 {
            Ok((s.lists(), s.plmp_placed()->Ok_0.1))
        } else {
            match self.after(n - 1) {
                Err(e) => Err(e),
                Ok(so_far) => one_more(
                    self.layer(n - 1),
                    s.cfg(),
                    (n - 1) as usize,
                    so_far,
                    self.prefill_m,
                ),
            }
        }
    }

    pub open spec fn embed(&self) -> Table {
        self.start().embed_table()->Ok_0
    }

    /// The verify epilogue can be sized.
    pub open spec fn verify_fits(&self) -> bool {
        has_verify(*self.kit, self.start().cfg(), self.prefill_m as int) ==> verify_rows(
            *self.kit,
            self.prefill_m as int,
        ) * self.embed().rows <= usize::MAX
    }

    /// Why the graph cannot be built.
    pub open spec fn error(&self) -> Option<BuildError> {
        match self.after(self.config.num_hidden_layers as int) {
            Err(e) => Some(e),
            Ok(_) => if self.verify_fits() {
                None
            } else {
                Some(BuildError::Limits)
            },
        }
    }

    /// The layers followed by the head.
    pub open spec fn lists(&self) -> Lists {
        self.after(self.config.num_hidden_layers as int)->Ok_0.0.head(
            *self.kit,
            self.start().cfg(),
            self.embed(),
            self.cap,
            self.fused_head,
        )
    }

    /// A graph holds the passes of the layers and of the head.
    pub open spec fn built(&self, g: E4bGraph) -> bool {
        let s = self.lists();
        let cfg = self.start().cfg();
        let n = self.config.num_hidden_layers as int;
        &&& pass_models(g.decode@) == s.decode
        &&& pass_models(g.prefill@) == s.prefill
        &&& pass_models(g.verify_prefill@) == s.verify
        &&& twin_models(g.twins@) == s.deep
        &&& overlays(g.overlay@, s.deep, s.decode.len() as int)
        &&& g.verify is Some == has_verify(*self.kit, cfg, self.prefill_m as int)
        &&& g.verify matches Some(v) ==> {
            &&& v.rows == verify_rows(*self.kit, self.prefill_m as int)
            &&& pass_models(v.passes@) == self.epilogue().prefill
        }
        &&& g.tally == self.after(n)->Ok_0.1
        &&& g.prefill_m == self.prefill_m
        &&& g.final_hid == final_hid(n)
    }

    /// The passes that turn the prefill rows into one token each.
    pub open spec fn epilogue(&self) -> Lists {
        Lists::empty().retarget(Target::Prefill).verify_head(
            *self.kit,
            self.start().cfg(),
            self.embed(),
            self.cap,
            self.prefill_m as int,
        )
    }
}

proof fn lemma_bad_norm(w: E4bHostWeights, hidden: int, i: int, k: int)
    requires
        0 <= i <= k <= w.layers@.len(),
        forall|j: int| i <= j < k ==> (#[trigger] w.layers@[j]).input_ln@.len() == hidden,
    ensures
        bad_norm(w, hidden, i) == bad_norm(w, hidden, k),
    decreases k - i,
{
    if i < k {
        lemma_bad_norm(w, hidden, i + 1, k);
    }
}

impl<'a> HostBuild<'a> {
    fn start_of(&self) -> (r: Start<'a>)
        ensures
            r == self.start(),
    {
        Start {
            config: self.config,
            kit: self.kit,
            env: self.env,
            max_seq: self.max_seq,
            prefill_m: self.prefill_m,
            host_layers: Some(self.weights.layers.len()),
            lora_layers: match self.lora {
                Some(l) => Some(l.layer_count()),
                None => None,
            },
            embed_len: self.weights.embed.len(),
            ple_len: self.weights.embed_per_layer.len(),
            plmp: &self.weights.per_layer_model_projection,
            plmp_facts: self.plmp_facts,
            eps: self.eps,
            embed_scale: self.embed_scale,
            pli_sa: self.pli_sa,
            pli_sb: self.pli_sb,
        }
    }

    fn check_norms(&self) -> (r: Result<(), BuildError>)
        ensures
            ({
                let bad = bad_norm(*self.weights, self.config.hidden_size as int, 0);
                match r {
                    Ok(_) => bad is None,
                    Err(e) => bad is Some && e == BuildError::InputNorm(bad->0 as usize),
                }
            }),
    {
        let layers = &self.weights.layers;
        let mut lens: Vec<usize> = Vec::new();
        let mut i: usize = 0;
        while i < layers.len()
            invariant
                i <= layers@.len(),
                lens@ == Seq::new(i as nat, |j: int| layers@[j].input_ln@.len() as usize),
                forall|j: int| 0 <= j < i ==> (#[trigger] layers@[j]).input_ln@.len() <= usize::MAX,
            decreases layers@.len() - i,
        {
            lens.push(layers[i].input_ln.len());
            i = i + 1;
            assert(lens@ =~= Seq::new(i as nat, |j: int| layers@[j].input_ln@.len() as usize));
        }
        let hidden: usize = self.config.hidden_size;
        let r = check_input_norms(hidden, &lens);
        proof {
            let w = *self.weights;
            let n = layers@.len() as int;
            match r {
                Ok(_) => {
                    assert forall|j: int| 0 <= j < n implies (#[trigger] w.layers@[j]).input_ln@.len()
                        == hidden by {
                        assert(lens@[j] == hidden);
                    }
                    lemma_bad_norm(w, hidden as int, 0, n);
                },
                Err(e) => {
                    let k = choose|k: int|
                        0 <= k < lens@.len() && e == BuildError::InputNorm(k as usize)
                            && #[trigger] lens@[k] != hidden && forall|j: int|
                            0 <= j < k ==> #[trigger] lens@[j] == hidden;
                    assert forall|j: int| 0 <= j < k implies (#[trigger] w.layers@[j]).input_ln@.len()
                        == hidden by {
                        assert(lens@[j] == hidden);
                    }
                    lemma_bad_norm(w, hidden as int, 0, k);
                },
            }
        }
        r
    }

    fn add_all(&self, g: &mut GraphBuild<'a>) -> (r: Result<(), BuildError>)
        requires
            self.wf(),
            self.weights.layers@.len() == self.config.num_hidden_layers,
            self.lora matches Some(l) ==> l.spec_layers().len() == self.config.num_hidden_layers,
            old(g).wf(),
            old(g).done == 0,
            old(g).config == self.config,
            old(g).kit == self.kit,
            old(g).env == self.env,
            old(g).cfg == self.start().cfg(),
            old(g).prefill_m == self.prefill_m,
            self.after(0) == Ok::<(Lists, Tally), BuildError>((old(g).b@, old(g).tally)),
        ensures
            ({
                let n = self.config.num_hidden_layers;
                match r {
                    Err(e) => self.after(n as int) == Err::<(Lists, Tally), BuildError>(e),
                    Ok(_) => {
                        &&& final(g).wf()
                        &&& final(g).done == n
                        &&& final(g).config == self.config
                        &&& final(g).kit == self.kit
                        &&& final(g).cfg == self.start().cfg()
                        &&& final(g).prefill_m == self.prefill_m
                        &&& final(g).embed == old(g).embed
                        &&& self.after(n as int) == Ok::<(Lists, Tally), BuildError>(
                            (final(g).b@, final(g).tally),
                        )
                    },
                }
            }),
    {
        let ghost embed = g.embed;
        let n: usize = self.config.num_hidden_layers;
        let mut i: usize = 0;
        while i < n
            invariant
                self.wf(),
                n == self.config.num_hidden_layers,
                self.weights.layers@.len() == n,
                self.lora matches Some(l) ==> l.spec_layers().len() == n,
                i <= n,
                g.wf(),
                g.done == i,
                g.config == self.config,
                g.kit == self.kit,
                g.env == self.env,
                g.cfg == self.start().cfg(),
                g.prefill_m == self.prefill_m,
                g.embed == embed,
                self.after(i as int) == Ok::<(Lists, Tally), BuildError>((g.b@, g.tally)),
            decreases n - i,
        {
            let lora = match self.lora {
                Some(l) => Some(l.layer(i)),
                None => None,
            };
            proof {
                self.lemma_next(i as int, g.b@, g.tally);
                reveal(one_more);
            }
            assert(lora == self.adapter(i as int));
            match g.add_layer(
                &self.weights.layers[i],
                self.facts[i],
                lora,
                self.meta,
                self.prefill_meta,
            ) {
                Err(e) => {
                    proof {
                        self.lemma_stays(e, i + 1, n as int);
                    }
                    return Err(e);
                },
                Ok(_) => {},
            }
            i = i + 1;
        }
        Ok(())
    }

    /// Plans the whole graph.
    pub fn build(&self) -> (r: Result<E4bGraph, BuildError>)
        requires
            self.wf(),
        ensures
            match r {
                Err(e) => self.error() == Some(e),
                Ok(g) => self.error() is None && self.built(g),
            },
    {
        let s = self.start_of();
        let mut g = match GraphBuild::begin(&s) {
            Err(e) => {
                proof {
                    self.lemma_refused(self.config.num_hidden_layers as int);
                }
                return Err(e);
            },
            Ok(g) => g,
        };
        match self.check_norms() {
            Err(e) => {
                proof {
                    self.lemma_refused(self.config.num_hidden_layers as int);
                }
                return Err(e);
            },
            Ok(_) => {},
        }
        let layers: usize = self.weights.layers.len();
        let adapted: Option<usize> = match self.lora {
            Some(l) => Some(l.layer_count()),
            None => None,
        };
        proof {
            assert(s.host_layers == Some(layers) && s.lora_layers == adapted);
            self.lemma_begun();
        }
        match self.add_all(&mut g) {
            Err(e) => {
                return Err(e);
            },
            Ok(_) => {},
        }
        match g.finish(&self.cap, self.fused_head) {
            None => Err(BuildError::Limits),
            Some(graph) => Ok(graph),
        }
    }

    /// One more layer.
    proof fn lemma_next(&self, i: int, lists: Lists, tally: Tally)
        requires
            0 <= i,
            self.after(i) == Ok::<(Lists, Tally), BuildError>((lists, tally)),
        ensures
            self.after(i + 1) == one_more(
                self.layer(i),
                self.start().cfg(),
                i as usize,
                (lists, tally),
                self.prefill_m,
            ),
    {
        reveal_with_fuel(HostBuild::after, 2);
    }

    proof fn lemma_begun(&self)
        requires
            self.start().error() is None,
            bad_norm(*self.weights, self.config.hidden_size as int, 0) is None,
        ensures
            self.after(0) == Ok::<(Lists, Tally), BuildError>(
                (self.start().lists(), self.start().plmp_placed()->Ok_0.1),
            ),
    {
        reveal_with_fuel(HostBuild::after, 1);
    }

    proof fn lemma_stays(&self, e: BuildError, i: int, n: int)
        requires
            0 <= i <= n,
            self.after(i) == Err::<(Lists, Tally), BuildError>(e),
        ensures
            self.after(n) == Err::<(Lists, Tally), BuildError>(e),
        decreases n - i,
    {
        if i < n {
            self.lemma_stays(e, i, n - 1);
            reveal_with_fuel(HostBuild::after, 2);
        }
    }

    proof fn lemma_refused(&self, n: int)
        ensures
            self.start().error() matches Some(e) ==> self.after(n) == Err::<(Lists, Tally), BuildError>(
                e,
            ),
            self.start().error() is None ==> match bad_norm(
                *self.weights,
                self.config.hidden_size as int,
                0,
            ) {
                Some(i) => self.after(n) == Err::<(Lists, Tally), BuildError>(
                    BuildError::InputNorm(i as usize),
                ),
                None => true,
            },
    {
        reveal_with_fuel(HostBuild::after, 1);
    }
}

/// What a session is set to do beyond what its graph fixes.
#[derive(Clone, Copy, Debug, PartialEq, Eq, Structural)]
pub struct SessionSwitches {
    pub timestamps: bool,
    pub profile: bool,
    pub staged_read: bool,
    pub spin_read: bool,
    pub preenc: bool,
    /// Prompts end in a chunk that is not full.
    pub tail: bool,
    pub live_rows: bool,
    /// The depth past which the deep arm runs, where there is one.
    pub deep_depth: u32,
}

/// An operand says how many rows count.
pub open spec fn counts_rows(b: Bind) -> bool {
    b.arg matches Arg::Uni(u) && u is Mk
}

pub open spec fn has_rows(p: Pass) -> bool {
    exists|i: int| 0 <= i < p.binds@.len() && counts_rows(#[trigger] p.binds@[i])
}

pub open spec fn any_rows(s: Seq<Pass>) -> bool {
    exists|i: int| 0 <= i < s.len() && has_rows(#[trigger] s[i])
}

fn pass_has_rows(p: &Pass) -> (r: bool)
    ensures
        r == has_rows(*p),
{
    let mut i: usize = 0;
    while i < p.binds.len()
        invariant
            i <= p.binds@.len(),
            forall|j: int| 0 <= j < i ==> !counts_rows(#[trigger] p.binds@[j]),
        decreases p.binds@.len() - i,
    {
        if let Arg::Uni(u) = p.binds[i].arg {
            if let Uniform::Mk { .. } = u {
                assert(counts_rows(p.binds@[i as int]));
                return true;
            }
        }
        i = i + 1;
    }
    false
}

fn some_rows(v: &Vec<Pass>) -> (r: bool)
    ensures
        r == any_rows(v@),
{
    let mut i: usize = 0;
    while i < v.len()
        invariant
            i <= v@.len(),
            forall|j: int| 0 <= j < i ==> !has_rows(#[trigger] v@[j]),
        decreases v@.len() - i,
    {
        if pass_has_rows(&v[i]) {
            assert(has_rows(v@[i as int]));
            return true;
        }
        i = i + 1;
    }
    false
}

impl<'a> HostBuild<'a> {
    /// What a session of a graph starts with.
    pub open spec fn session_start(&self, g: E4bGraph, sw: SessionSwitches) -> SessionStart {
        SessionStart {
            max_seq: self.max_seq,
            vocab: self.config.vocab_size,
            timestamps: sw.timestamps,
            profile: sw.profile,
            staged_read: sw.staged_read,
            spin_read: sw.spin_read,
            preenc: sw.preenc,
            prefill_m: self.prefill_m,
            tail: sw.tail,
            live_rows: sw.live_rows,
            verify_params: any_rows(g.verify_prefill@),
            verify: match g.verify {
                Some(v) => Some((v.rows, g.verify_prefill@.len() > 0)),
                None => None,
            },
            sliding_window: self.config.sliding_window,
            decode_splits: self.kit.pl.decode_splits,
            deep: match self.kit.pl.deep_splits {
                Some(s) => Some((sw.deep_depth, s)),
                None => None,
            },
            deep_full_only: self.kit.pl.deep_full_only,
        }
    }

    pub fn start_session(&self, g: &E4bGraph, sw: &SessionSwitches) -> (r: SessionStart)
        ensures
            r == self.session_start(*g, *sw),
    {
        SessionStart {
            max_seq: self.max_seq,
            vocab: self.config.vocab_size,
            timestamps: sw.timestamps,
            profile: sw.profile,
            staged_read: sw.staged_read,
            spin_read: sw.spin_read,
            preenc: sw.preenc,
            prefill_m: self.prefill_m,
            tail: sw.tail,
            live_rows: sw.live_rows,
            verify_params: some_rows(&g.verify_prefill),
            verify: match &g.verify {
                Some(v) => Some((v.rows, g.verify_prefill.len() > 0)),
                None => None,
            },
            sliding_window: self.config.sliding_window,
            decode_splits: self.kit.pl.decode_splits,
            deep: match self.kit.pl.deep_splits {
                Some(s) => Some((sw.deep_depth, s)),
                None => None,
            },
            deep_full_only: self.kit.pl.deep_full_only,
        }
    }
}

impl Gemma4E4bWgpu {
    /// Plans a graph with its adapter and starts a session of it.
    pub fn new_with_lora(h: &HostBuild, sw: &SessionSwitches) -> (r: Result<
        (Gemma4E4bWgpu, E4bGraph),
        BuildError,
    >)
        requires
            h.wf(),
            h.max_seq < usize::MAX - 3,
        ensures
            match r {
                Err(e) => h.error() == Some(e),
                Ok((s, g)) => {
                    &&& h.error() is None
                    &&& h.built(g)
                    &&& s.wf()
                    &&& s.starts(&h.session_start(g, *sw))
                },
            },
    {
        match h.build() {
            Err(e) => Err(e),
            Ok(g) => {
                let s = Gemma4E4bWgpu::new(&h.start_session(&g, sw));
                Ok((s, g))
            },
        }
    }
}

} // verus!
