//! Routing presets: named sets of links, each endpoint given by node and
//! port *names*. Resolving a preset against the current graph turns each
//! name quadruple into the ids of the first matching node and port, link
//! specs with any unknown name being skipped. Reading and writing preset
//! files is the surrounding service's business; the path and file-name
//! conventions and the resolution itself live here.

use vstd::prelude::*;

use crate::models::{CreateLinkRequest, Node, NodeV, Port, PortV};
use crate::seqs::{first_index_where, lemma_first_index_where};
use crate::strings::{is_suffix, str_ends_with};

verus! {

/// One link of a preset, by names: output node and port, input node and
/// port.
#[derive(Debug, PartialEq)]
pub struct LinkSpec {
    pub output_node: String,
    pub output_port: String,
    pub input_node: String,
    pub input_port: String,
}

/// The mathematical value of a [`LinkSpec`].
#[verifier::ext_equal]
pub ghost struct LinkSpecV {
    pub output_node: Seq<char>,
    pub output_port: Seq<char>,
    pub input_node: Seq<char>,
    pub input_port: Seq<char>,
}

impl View for LinkSpec {
    type V = LinkSpecV;

    open spec fn view(&self) -> LinkSpecV {
        LinkSpecV {
            output_node: self.output_node@,
            output_port: self.output_port@,
            input_node: self.input_node@,
            input_port: self.input_port@,
        }
    }
}

impl DeepView for LinkSpec {
    type V = LinkSpecV;

    open spec fn deep_view(&self) -> LinkSpecV {
        self.view()
    }
}

/// A named preset: a name, a description, and the links to establish.
#[derive(Debug, PartialEq)]
pub struct Preset {
    pub name: String,
    pub description: String,
    pub links: Vec<LinkSpec>,
}

/// The mathematical value of a [`Preset`].
#[verifier::ext_equal]
pub ghost struct PresetV {
    pub name: Seq<char>,
    pub description: Seq<char>,
    pub links: Seq<LinkSpecV>,
}

impl View for Preset {
    type V = PresetV;

    open spec fn view(&self) -> PresetV {
        PresetV {
            name: self.name@,
            description: self.description@,
            links: self.links.deep_view(),
        }
    }
}

/// Selects the nodes carrying exactly this name.
pub open spec fn node_named(name: Seq<char>) -> spec_fn(NodeV) -> bool {
    |n: NodeV| n.name == name
}

/// Selects the ports carrying exactly this name.
pub open spec fn port_named(name: Seq<char>) -> spec_fn(PortV) -> bool {
    |p: PortV| p.name == name
}

/// Some node in `nodes` carries this name.
pub open spec fn has_node_named(nodes: Seq<NodeV>, name: Seq<char>) -> bool {
    exists|i: int| 0 <= i < nodes.len() && nodes[i].name == name
}

/// Some port in `ports` carries this name.
pub open spec fn has_port_named(ports: Seq<PortV>, name: Seq<char>) -> bool {
    exists|i: int| 0 <= i < ports.len() && ports[i].name == name
}

/// Resolves one link spec against the graph's nodes: the first node of each
/// endpoint name, then the first port of each port name on that node; any
/// name without a match resolves to nothing.
pub open spec fn resolve_link_spec(nodes: Seq<NodeV>, ls: LinkSpecV) -> Option<CreateLinkRequest> {
    if !has_node_named(nodes, ls.output_node) || !has_node_named(nodes, ls.input_node) {
        None
    } else {
        let on = nodes[first_index_where(nodes, node_named(ls.output_node))];
        let inn = nodes[first_index_where(nodes, node_named(ls.input_node))];
        if !has_port_named(on.ports, ls.output_port) || !has_port_named(inn.ports, ls.input_port) {
            None
        } else {
            let op = on.ports[first_index_where(on.ports, port_named(ls.output_port))];
            let ip = inn.ports[first_index_where(inn.ports, port_named(ls.input_port))];
            Some(
                CreateLinkRequest {
                    output_node: on.id,
                    output_port: op.id,
                    input_node: inn.id,
                    input_port: ip.id,
                },
            )
        }
    }
}

/// Resolves every link of a preset, in order, keeping the ones whose four
/// names all match.
pub open spec fn resolve_links(nodes: Seq<NodeV>, specs: Seq<LinkSpecV>) -> Seq<CreateLinkRequest>
    decreases specs.len(),
{
    if specs.len() == 0 {
        Seq::empty()
    } else {
        resolve_links(nodes, specs.drop_last()) + (match resolve_link_spec(nodes, specs.last()) {
            Some(r) => seq![r],
            None => Seq::empty(),
        })
    }
}

/// The position of the first node with this name, if any.
fn find_node_by_name(nodes: &Vec<Node>, name: &String) -> (r: Option<usize>)
    ensures
        match r {
            Some(i) => has_node_named(nodes.deep_view(), name@) && i < nodes.deep_view().len()
                && i as int == first_index_where(nodes.deep_view(), node_named(name@)),
            None => !has_node_named(nodes.deep_view(), name@),
        },
{
    let n = nodes.len();
    for i in 0..n
        invariant
            n == nodes.len(),
            forall|j: int| 0 <= j < i as int ==> #[trigger] nodes.deep_view()[j].name != name@,
    {
        if nodes[i].name.eq(name) {
            proof {
                assert(nodes.deep_view()[i as int].name == name@);
                lemma_first_index_where(nodes.deep_view(), node_named(name@), i as int);
            }
            return Some(i);
        }
    }
    None
}

/// The position of the first port with this name, if any.
fn find_port_by_name(ports: &Vec<Port>, name: &String) -> (r: Option<usize>)
    ensures
        match r {
            Some(i) => has_port_named(ports.deep_view(), name@) && i < ports.deep_view().len()
                && i as int == first_index_where(ports.deep_view(), port_named(name@)),
            None => !has_port_named(ports.deep_view(), name@),
        },
{
    let n = ports.len();
    for i in 0..n
        invariant
            n == ports.len(),
            forall|j: int| 0 <= j < i as int ==> #[trigger] ports.deep_view()[j].name != name@,
    {
        if ports[i].name.eq(name) {
            proof {
                assert(ports.deep_view()[i as int].name == name@);
                lemma_first_index_where(ports.deep_view(), port_named(name@), i as int);
            }
            return Some(i);
        }
    }
    None
}

/// Resolves a preset against the current nodes: one link request per link
/// spec whose four names all match, in preset order.
pub fn resolve_preset_links(nodes: &Vec<Node>, preset: &Preset) -> (r: Vec<CreateLinkRequest>)
    ensures
        r@ == resolve_links(nodes.deep_view(), preset@.links),
{
    let mut r: Vec<CreateLinkRequest> = Vec::new();
    let ghost nodesv = nodes.deep_view();
    let ghost specsv = preset.links.deep_view();
    let n = preset.links.len();
    for i in 0..n
        invariant
            n == preset.links.len(),
            nodesv == nodes.deep_view(),
            specsv == preset.links.deep_view(),
            r@ =~= resolve_links(nodesv, specsv.subrange(0, i as int)),
    {
        proof {
            assert(specsv.subrange(0, i + 1).drop_last() =~= specsv.subrange(0, i as int));
            assert(specsv.subrange(0, i + 1).last() == specsv[i as int]);
        }
        let ls = &preset.links[i];
        let resolved = resolve_one(nodes, ls);
        match resolved {
            Some(req) => {
                r.push(req);
            },
            None => {},
        }
        proof {
            assert(r@ =~= resolve_links(nodesv, specsv.subrange(0, i + 1)));
        }
    }
    proof {
        assert(specsv.subrange(0, n as int) =~= specsv);
    }
    r
}

/// Resolves one link spec against the current nodes.
pub fn resolve_one(nodes: &Vec<Node>, ls: &LinkSpec) -> (r: Option<CreateLinkRequest>)
    ensures
        r == resolve_link_spec(nodes.deep_view(), ls@),
{
    let oi = match find_node_by_name(nodes, &ls.output_node) {
        Some(i) => i,
        None => {
            return None;
        },
    };
    let ii = match find_node_by_name(nodes, &ls.input_node) {
        Some(i) => i,
        None => {
            return None;
        },
    };
    let on = &nodes[oi];
    let inn = &nodes[ii];
    let opi = match find_port_by_name(&on.ports, &ls.output_port) {
        Some(i) => i,
        None => {
            return None;
        },
    };
    let ipi = match find_port_by_name(&inn.ports, &ls.input_port) {
        Some(i) => i,
        None => {
            return None;
        },
    };
    Some(
        CreateLinkRequest {
            output_node: on.id,
            output_port: on.ports[opi].id,
            input_node: inn.id,
            input_port: inn.ports[ipi].id,
        },
    )
}

/// Keeps preset files in one directory and names each after its preset.
/// Its view is the directory's path.
pub struct PresetManager {
    base_path: String,
}

impl View for PresetManager {
    type V = Seq<char>;

    closed spec fn view(&self) -> Seq<char> {
        self.base_path@
    }
}

impl PresetManager {
    /// A manager storing presets under the user's configuration directory,
    /// given the home directory.
    pub fn new(home: &str) -> (r: PresetManager)
        ensures
            r@ == home@ + "/.config/audio-remote/presets"@,
    {
        let base = home.to_owned();
        PresetManager { base_path: base.concat("/.config/audio-remote/presets") }
    }

    /// The directory that holds the preset files.
    pub fn base_path(&self) -> (r: &str)
        ensures
            r@ == self@,
    {
        self.base_path.as_str()
    }

    /// The file that stores the preset of this name.
    pub fn preset_path(&self, name: &str) -> (r: String)
        ensures
            r@ == self@ + "/"@ + name@ + ".json"@,
    {
        let p = self.base_path.clone();
        let p = p.concat("/");
        let p = p.concat(name);
        p.concat(".json")
    }
}

/// The preset a file of this name stores, by the file-name convention:
/// `Some` of the stem for a `.json` file, nothing otherwise.
pub fn preset_name_of_file(file: &str) -> (r: Option<String>)
    ensures
        match r {
            Some(name) => is_suffix(file@, ".json"@) && name@ == file@.subrange(
                0,
                file@.len() - 5,
            ),
            None => !is_suffix(file@, ".json"@),
        },
{
    proof {
        reveal_strlit(".json");
    }
    if str_ends_with(file, ".json") {
        let len = file.unicode_len();
        Some(file.substring_char(0, len - 5).to_owned())
    } else {
        None
    }
}

} // verus!
