//! The parameters of each architecture version and the checkpoint tensors
//! that they are bound to.
use crate::config::MambaVersion;
use crate::encoding::SourceEncoding;
use vstd::prelude::*;
use vstd::string::StringExecFns;

verus! {

/// A parameter of one layer.
#[derive(Clone, Copy, Debug, PartialEq, Eq, Structural)]
pub enum LayerParam {
    /// Scale of the normalization in front of the mixing block.
    Norm,
    /// Scale of the normalization inside the mixing block.
    MixerNorm,
    ALog,
    D,
    ConvWeight,
    ConvBias,
    DtProjWeight,
    DtProjBias,
    DtBias,
    InProjWeight,
    OutProjWeight,
    XProjWeight,
}

/// Path of a parameter inside the model.
#[derive(Clone, Copy, Debug, PartialEq, Eq, Structural)]
pub enum ParamPath {
    /// The embedding table.
    Embedding,
    /// Scale of the final normalization.
    FinalNorm,
    /// A parameter of the layer with the given index.
    Layer(usize, LayerParam),
}

/// One parameter together with the checkpoint tensor that fills it.
#[derive(Debug)]
pub struct ParameterBinding {
    /// The parameter that is filled.
    pub target: ParamPath,
    /// Name of the tensor in the checkpoint.
    pub source: String,
    /// Encoding of the tensor in the checkpoint.
    pub encoding: SourceEncoding,
    /// Whether the tensor is stored with its first two axes exchanged.
    pub transpose: bool,
}

/// The decimal digit `d`.
pub open spec fn digit(d: nat) -> char {
    if d == 0 {
        '0'
    } else if d == 1 {
        '1'
    } else if d == 2 {
        '2'
    } else if d == 3 {
        '3'
    } else if d == 4 {
        '4'
    } else if d == 5 {
        '5'
    } else if d == 6 {
        '6'
    } else if d == 7 {
        '7'
    } else if d == 8 {
        '8'
    } else {
        '9'
    }
}

/// Decimal representation of `n`, without leading zeros.
pub open spec fn decimal(n: nat) -> Seq<char>
    decreases n,
{
    if n < 10 {
        seq![digit(n)]
    } else {
        decimal(n / 10).push(digit(n % 10))
    }
}

/// The parameters of one layer, in the order in which they are loaded.
pub open spec fn layer_params(version: MambaVersion) -> Seq<LayerParam> {
    match version {
        MambaVersion::Mamba1 => seq![
            LayerParam::Norm,
            LayerParam::ALog,
            LayerParam::D,
            LayerParam::ConvWeight,
            LayerParam::ConvBias,
            LayerParam::DtProjWeight,
            LayerParam::DtProjBias,
            LayerParam::InProjWeight,
            LayerParam::OutProjWeight,
            LayerParam::XProjWeight,
        ],
        MambaVersion::Mamba2 => seq![
            LayerParam::Norm,
            LayerParam::MixerNorm,
            LayerParam::ALog,
            LayerParam::D,
            LayerParam::ConvWeight,
            LayerParam::ConvBias,
            LayerParam::DtBias,
            LayerParam::InProjWeight,
            LayerParam::OutProjWeight,
        ],
    }
}

/// Number of bindings of a model with `n_layer` layers.
pub open spec fn binding_count(version: MambaVersion, n_layer: nat) -> nat {
    2 + n_layer * layer_params(version).len()
}

/// The parameter that binding `k` fills: the embedding table, the final
/// normalization, then the parameters of each layer in turn.
pub open spec fn target_at(version: MambaVersion, k: int) -> ParamPath {
    let per = layer_params(version).len() as int;
    if k == 0 {
        ParamPath::Embedding
    } else if k == 1 {
        ParamPath::FinalNorm
    } else {
        ParamPath::Layer(((k - 2) / per) as usize, layer_params(version)[(k - 2) % per])
    }
}

/// Name of a layer parameter below the layer's own prefix.
pub open spec fn layer_suffix(param: LayerParam) -> Seq<char> {
    match param {
        LayerParam::Norm => "norm.weight"@,
        LayerParam::MixerNorm => "mixer.norm.weight"@,
        LayerParam::ALog => "mixer.A_log"@,
        LayerParam::D => "mixer.D"@,
        LayerParam::ConvWeight => "mixer.conv1d.weight"@,
        LayerParam::ConvBias => "mixer.conv1d.bias"@,
        LayerParam::DtProjWeight => "mixer.dt_proj.weight"@,
        LayerParam::DtProjBias => "mixer.dt_proj.bias"@,
        LayerParam::DtBias => "mixer.dt_bias"@,
        LayerParam::InProjWeight => "mixer.in_proj.weight"@,
        LayerParam::OutProjWeight => "mixer.out_proj.weight"@,
        LayerParam::XProjWeight => "mixer.x_proj.weight"@,
    }
}

/// Name of the checkpoint tensor that fills a parameter.
pub open spec fn checkpoint_name(path: ParamPath) -> Seq<char> {
    match path {
        ParamPath::Embedding => "backbone.embedding.weight"@,
        ParamPath::FinalNorm => "backbone.norm_f.weight"@,
        ParamPath::Layer(i, param) => "backbone.layers."@ + decimal(i as nat) + "."@
            + layer_suffix(param),
    }
}

/// Encoding in which a version's checkpoint stores a parameter: the first
/// version stores single precision throughout, the second half precision but
/// for `D`.
pub open spec fn encoding_of(version: MambaVersion, path: ParamPath) -> SourceEncoding {
    match version {
        MambaVersion::Mamba1 => SourceEncoding::Single,
        MambaVersion::Mamba2 => match path {
            ParamPath::Layer(_, LayerParam::D) => SourceEncoding::Single,
            _ => SourceEncoding::Half,
        },
    }
}

/// Whether the checkpoint stores a parameter with its first two axes
/// exchanged: so it does the weights of the linear projections.
pub open spec fn stored_transposed(path: ParamPath) -> bool {
    match path {
        ParamPath::Layer(_, LayerParam::DtProjWeight) => true,
        ParamPath::Layer(_, LayerParam::InProjWeight) => true,
        ParamPath::Layer(_, LayerParam::OutProjWeight) => true,
        ParamPath::Layer(_, LayerParam::XProjWeight) => true,
        _ => false,
    }
}

/// What a binding says, with the tensor's name as a sequence of characters.
pub struct BindingSpec {
    pub target: ParamPath,
    pub source: Seq<char>,
    pub encoding: SourceEncoding,
    pub transpose: bool,
}

impl View for ParameterBinding {
    type V = BindingSpec;

    open spec fn view(&self) -> BindingSpec {
        BindingSpec {
            target: self.target,
            source: self.source@,
            encoding: self.encoding,
            transpose: self.transpose,
        }
    }
}

/// The binding that a version has for a parameter.
pub open spec fn binding_of(version: MambaVersion, target: ParamPath) -> BindingSpec {
    BindingSpec {
        target,
        source: checkpoint_name(target),
        encoding: encoding_of(version, target),
        transpose: stored_transposed(target),
    }
}

/// The bindings of a model with `n_layer` layers, in the order in which they
/// are loaded.
pub open spec fn bindings_of(version: MambaVersion, n_layer: nat) -> Seq<BindingSpec> {
    Seq::new(binding_count(version, n_layer), |k: int| binding_of(version, target_at(version, k)))
}

/// What each binding of a list says.
pub open spec fn binding_views(bindings: Seq<ParameterBinding>) -> Seq<BindingSpec> {
    Seq::new(bindings.len(), |k: int| bindings[k]@)
}

/// The text of one decimal digit.
fn digit_text(d: usize) -> (r: &'static str)
    requires
        d < 10,
    ensures
        r@ == seq![digit(d as nat)],
{
    proof {
        reveal_strlit("0");
        reveal_strlit("1");
        reveal_strlit("2");
        reveal_strlit("3");
        reveal_strlit("4");
        reveal_strlit("5");
        reveal_strlit("6");
        reveal_strlit("7");
        reveal_strlit("8");
        reveal_strlit("9");
    }
    let r = if d == 0 {
        "0"
    } else if d == 1 {
        "1"
    } else if d == 2 {
        "2"
    } else if d == 3 {
        "3"
    } else if d == 4 {
        "4"
    } else if d == 5 {
        "5"
    } else if d == 6 {
        "6"
    } else if d == 7 {
        "7"
    } else if d == 8 {
        "8"
    } else {
        "9"
    };
    assert(r@ =~= seq![digit(d as nat)]);
    r
}

/// Writes a number in decimal.
pub fn decimal_text(n: usize) -> (r: String)
    ensures
        r@ == decimal(n as nat),
    decreases n,
{
    if n < 10 {
        String::from_str(digit_text(n))
    } else {
        let mut r = decimal_text(n / 10);
        r.append(digit_text(n % 10));
        assert(r@ =~= decimal(n as nat));
        r
    }
}

/// Name of a layer parameter below the layer's own prefix.
fn layer_suffix_text(param: LayerParam) -> (r: &'static str)
    ensures
        r@ == layer_suffix(param),
{
    match param {
        LayerParam::Norm => "norm.weight",
        LayerParam::MixerNorm => "mixer.norm.weight",
        LayerParam::ALog => "mixer.A_log",
        LayerParam::D => "mixer.D",
        LayerParam::ConvWeight => "mixer.conv1d.weight",
        LayerParam::ConvBias => "mixer.conv1d.bias",
        LayerParam::DtProjWeight => "mixer.dt_proj.weight",
        LayerParam::DtProjBias => "mixer.dt_proj.bias",
        LayerParam::DtBias => "mixer.dt_bias",
        LayerParam::InProjWeight => "mixer.in_proj.weight",
        LayerParam::OutProjWeight => "mixer.out_proj.weight",
        LayerParam::XProjWeight => "mixer.x_proj.weight",
    }
}

/// Name of the checkpoint tensor that fills a parameter.
pub fn checkpoint_key(path: ParamPath) -> (r: String)
    ensures
        r@ == checkpoint_name(path),
{
    match path {
        ParamPath::Embedding => String::from_str("backbone.embedding.weight"),
        ParamPath::FinalNorm => String::from_str("backbone.norm_f.weight"),
        ParamPath::Layer(i, param) => {
            let mut r = String::from_str("backbone.layers.");
            let number = decimal_text(i);
            r.append(number.as_str());
            r.append(".");
            r.append(layer_suffix_text(param));
            r
        },
    }
}

/// The binding that a version has for a parameter.
pub fn binding_for(version: MambaVersion, target: ParamPath) -> (r: ParameterBinding)
    ensures
        r@ == binding_of(version, target),
{
    let encoding = match version {
        MambaVersion::Mamba1 => SourceEncoding::Single,
        MambaVersion::Mamba2 => match target {
            ParamPath::Layer(_, LayerParam::D) => SourceEncoding::Single,
            _ => SourceEncoding::Half,
        },
    };
    let transpose = match target {
        ParamPath::Layer(_, LayerParam::DtProjWeight) => true,
        ParamPath::Layer(_, LayerParam::InProjWeight) => true,
        ParamPath::Layer(_, LayerParam::OutProjWeight) => true,
        ParamPath::Layer(_, LayerParam::XProjWeight) => true,
        _ => false,
    };
    ParameterBinding { target, source: checkpoint_key(target), encoding, transpose }
}

/// The parameters of one layer, in the order in which they are loaded.
pub fn layer_param_list(version: MambaVersion) -> (r: Vec<LayerParam>)
    ensures
        r@ == layer_params(version),
{
    let mut r: Vec<LayerParam> = Vec::new();
    match version {
        MambaVersion::Mamba1 => {
            r.push(LayerParam::Norm);
            r.push(LayerParam::ALog);
            r.push(LayerParam::D);
            r.push(LayerParam::ConvWeight);
            r.push(LayerParam::ConvBias);
            r.push(LayerParam::DtProjWeight);
            r.push(LayerParam::DtProjBias);
            r.push(LayerParam::InProjWeight);
            r.push(LayerParam::OutProjWeight);
            r.push(LayerParam::XProjWeight);
        },
        MambaVersion::Mamba2 => {
            r.push(LayerParam::Norm);
            r.push(LayerParam::MixerNorm);
            r.push(LayerParam::ALog);
            r.push(LayerParam::D);
            r.push(LayerParam::ConvWeight);
            r.push(LayerParam::ConvBias);
            r.push(LayerParam::DtBias);
            r.push(LayerParam::InProjWeight);
            r.push(LayerParam::OutProjWeight);
        },
    }
    assert(r@ =~= layer_params(version));
    r
}

/// Number of bindings of a model with `n_layer` layers, `None` where it is
/// beyond the machine word.
pub fn checked_binding_count(version: MambaVersion, n_layer: usize) -> (r: Option<usize>)
    ensures
        r is Some <==> binding_count(version, n_layer as nat) <= usize::MAX,
        r matches Some(count) ==> count == binding_count(version, n_layer as nat),
{
    let per: usize = match version {
        MambaVersion::Mamba1 => 10,
        MambaVersion::Mamba2 => 9,
    };
    match n_layer.checked_mul(per) {
        Some(layers) => layers.checked_add(2),
        None => None,
    }
}

/// The bindings of a model with `n_layer` layers: the embedding table, the
/// final normalization, then the parameters of each layer in turn.
pub fn bindings(version: MambaVersion, n_layer: usize) -> (r: Vec<ParameterBinding>)
    requires
        binding_count(version, n_layer as nat) <= usize::MAX,
    ensures
        binding_views(r@) == bindings_of(version, n_layer as nat),
{
    let params = layer_param_list(version);
    let per: usize = params.len();
    let mut r: Vec<ParameterBinding> = Vec::new();
    r.push(binding_for(version, ParamPath::Embedding));
    r.push(binding_for(version, ParamPath::FinalNorm));
    let mut layer: usize = 0;
    while layer < n_layer
        invariant
            params@ == layer_params(version),
            per == params@.len(),
            per == 9 || per == 10,
            layer <= n_layer,
            2 + n_layer * per <= usize::MAX,
            r@.len() == 2 + layer * per,
            forall|k: int|
                0 <= k < r@.len() ==> (#[trigger] r@[k])@ == binding_of(
                    version,
                    target_at(version, k),
                ),
        decreases n_layer - layer,
    {
        let mut p: usize = 0;
        while p < per
            invariant
                params@ == layer_params(version),
                per == params@.len(),
                per == 9 || per == 10,
                layer < n_layer,
                p <= per,
                2 + n_layer * per <= usize::MAX,
                r@.len() == 2 + layer * per + p,
                forall|k: int|
                    0 <= k < r@.len() ==> (#[trigger] r@[k])@ == binding_of(
                        version,
                        target_at(version, k),
                    ),
            decreases per - p,
        {
            let ghost k = r@.len() as int;
            let binding = binding_for(version, ParamPath::Layer(layer, params[p]));
            proof {
                vstd::arithmetic::div_mod::lemma_fundamental_div_mod_converse(
                    k - 2,
                    per as int,
                    layer as int,
                    p as int,
                );
                assert(k - 2 == per * layer + p) by (nonlinear_arith)
                    requires
                        k == 2 + layer * per + p,
                ;
                assert(target_at(version, k) == ParamPath::Layer(layer, params@[p as int]));
            }
            r.push(binding);
            p = p + 1;
        }
        proof {
            assert(2 + layer * per + per == 2 + (layer + 1) * per) by (nonlinear_arith);
        }
        layer = layer + 1;
    }
    assert(binding_views(r@) =~= bindings_of(version, n_layer as nat));
    r
}

} // verus!
