//! The two neural networks as the visualisation describes them: their
//! layers, sizes and activation functions, and how many neurons of a layer
//! are drawn.
//!
//! Positions, weights and activations are drawn by the application.
use vstd::prelude::*;
use vstd::string::StringExecFns;

verus! {

/// Colour family of a network's drawing.
#[derive(Debug, Clone, Copy, PartialEq, Eq, Structural)]
pub enum NetworkColorScheme {
    /// Blue-based.
    Policy,
    /// Green-based.
    Value,
}

/// A layer of a network.
#[derive(Clone)]
pub struct LayerInfo {
    pub name: String,
    pub neurons: usize,
    pub activation_type: String,
}

/// A network: its name, its layers from input to output, and its colours.
#[derive(Clone)]
pub struct NetworkArchitecture {
    pub name: String,
    pub layers: Vec<LayerInfo>,
    pub color_scheme: NetworkColorScheme,
}

impl View for LayerInfo {
    type V = (Seq<char>, usize, Seq<char>);

    open spec fn view(&self) -> (Seq<char>, usize, Seq<char>) {
        (self.name@, self.neurons, self.activation_type@)
    }
}

/// The layers of a network, as the contracts speak of them.
pub open spec fn layers_of(a: NetworkArchitecture) -> Seq<(Seq<char>, usize, Seq<char>)> {
    a.layers@.map_values(|l: LayerInfo| l@)
}

fn layer(name: &str, neurons: usize, activation: &str) -> (l: LayerInfo)
    ensures
        l@ == (name@, neurons, activation@),
{
    LayerInfo { name: String::from_str(name), neurons, activation_type: String::from_str(activation) }
}

/// The policy network: 8x19x19 inputs, hidden layers of 512, 512 and 256
/// ReLU units, and a softmax over the 361 points.
pub fn policy_network() -> (a: NetworkArchitecture)
    ensures
        a.name@ == "Policy Network (Move Prediction)"@,
        a.color_scheme == NetworkColorScheme::Policy,
        layers_of(a) == seq![
            ("Input\n8×19×19"@, 2888usize, ""@),
            ("Hidden 1\n512"@, 512usize, "ReLU"@),
            ("Hidden 2\n512"@, 512usize, "ReLU"@),
            ("Hidden 3\n256"@, 256usize, "ReLU"@),
            ("Output\n361"@, 361usize, "Softmax"@),
        ],
{
    let mut layers: Vec<LayerInfo> = Vec::new();
    layers.push(layer("Input\n8×19×19", 2888, ""));
    layers.push(layer("Hidden 1\n512", 512, "ReLU"));
    layers.push(layer("Hidden 2\n512", 512, "ReLU"));
    layers.push(layer("Hidden 3\n256", 256, "ReLU"));
    layers.push(layer("Output\n361", 361, "Softmax"));
    let a = NetworkArchitecture {
        name: String::from_str("Policy Network (Move Prediction)"),
        layers,
        color_scheme: NetworkColorScheme::Policy,
    };
    assert(layers_of(a) =~= seq![
        ("Input\n8×19×19"@, 2888usize, ""@),
        ("Hidden 1\n512"@, 512usize, "ReLU"@),
        ("Hidden 2\n512"@, 512usize, "ReLU"@),
        ("Hidden 3\n256"@, 256usize, "ReLU"@),
        ("Output\n361"@, 361usize, "Softmax"@),
    ]);
    a
}

/// The value network: 8x19x19 inputs, hidden layers of 512, 512, 256 and
/// 128 ReLU units, and one tanh output.
pub fn value_network() -> (a: NetworkArchitecture)
    ensures
        a.name@ == "Value Network (Position Evaluation)"@,
        a.color_scheme == NetworkColorScheme::Value,
        layers_of(a) == seq![
            ("Input\n8×19×19"@, 2888usize, ""@),
            ("Hidden 1\n512"@, 512usize, "ReLU"@),
            ("Hidden 2\n512"@, 512usize, "ReLU"@),
            ("Hidden 3\n256"@, 256usize, "ReLU"@),
            ("Hidden 4\n128"@, 128usize, "ReLU"@),
            ("Output\n1"@, 1usize, "Tanh"@),
        ],
{
    let mut layers: Vec<LayerInfo> = Vec::new();
    layers.push(layer("Input\n8×19×19", 2888, ""));
    layers.push(layer("Hidden 1\n512", 512, "ReLU"));
    layers.push(layer("Hidden 2\n512", 512, "ReLU"));
    layers.push(layer("Hidden 3\n256", 256, "ReLU"));
    layers.push(layer("Hidden 4\n128", 128, "ReLU"));
    layers.push(layer("Output\n1", 1, "Tanh"));
    let a = NetworkArchitecture {
        name: String::from_str("Value Network (Position Evaluation)"),
        layers,
        color_scheme: NetworkColorScheme::Value,
    };
    assert(layers_of(a) =~= seq![
        ("Input\n8×19×19"@, 2888usize, ""@),
        ("Hidden 1\n512"@, 512usize, "ReLU"@),
        ("Hidden 2\n512"@, 512usize, "ReLU"@),
        ("Hidden 3\n256"@, 256usize, "ReLU"@),
        ("Hidden 4\n128"@, 128usize, "ReLU"@),
        ("Output\n1"@, 1usize, "Tanh"@),
    ]);
    a
}

/// The number of neurons drawn for a layer: at most 20.
pub fn neurons_shown(layer: &LayerInfo) -> (n: usize)
    ensures
        n == if layer.neurons < 20 {
            layer.neurons
        } else {
            20
        },
{
    if layer.neurons < 20 {
        layer.neurons
    } else {
        20
    }
}

/// Large layers (over 100 neurons) are drawn with smaller dots.
pub fn is_large_layer(layer: &LayerInfo) -> (r: bool)
    ensures
        r == (layer.neurons > 100),
{
    layer.neurons > 100
}

} // verus!
