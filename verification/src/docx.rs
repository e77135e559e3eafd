//! DOCX extraction: the archive member `word/document.xml` is read as XML,
//! and the text of every `<t>` descendant is concatenated per `<p>` element,
//! each paragraph terminated by a newline.

use vstd::prelude::*;
use crate::textlines::str_eq;

verus! {

/// The mathematical value of one XML node: its id, its parent's id, its
/// element tag name (empty for non-element nodes), and its text.
pub struct XmlNodeModel {
    pub id: u32,
    pub parent: Option<u32>,
    pub tag: Seq<char>,
    pub text: Option<Seq<char>>,
}

/// One node of a parsed XML document, in document order.
#[derive(Debug, Clone, PartialEq)]
pub struct XmlNode {
    pub id: u32,
    pub parent: Option<u32>,
    pub tag: String,
    pub text: Option<String>,
}

impl DeepView for XmlNode {
    type V = XmlNodeModel;

    open spec fn deep_view(&self) -> XmlNodeModel {
        XmlNodeModel {
            id: self.id,
            parent: self.parent,
            tag: self.tag@,
            text: match &self.text {
                Option::Some(t) => Option::Some(t@),
                Option::None => Option::None,
            },
        }
    }
}

/// What reading a member of a ZIP archive returns: its content as UTF-8
/// text, a function of the archive bytes and the member name alone; nothing
/// when the archive is malformed, the member absent, or its bytes not valid
/// UTF-8.
pub uninterp spec fn zip_member_text_of(b: Seq<u8>, name: Seq<char>) -> Option<Seq<char>>;

/// Relies on zip::ZipArchive: `new` parses the archive from the bytes and
/// `by_name` opens the named member, whose bytes are read as a UTF-8 string.
#[verifier::external_body]
fn zip_member_text(bytes: &Vec<u8>, name: &str) -> (r: Result<String, String>)
    ensures
        (r is Ok) == (zip_member_text_of(bytes@, name@) is Some),
        r matches Ok(t) ==> zip_member_text_of(bytes@, name@) == Some(t@),
{
    let cursor = std::io::Cursor::new(bytes.as_slice());
    let mut archive = match zip::ZipArchive::new(cursor) {
        Ok(a) => a,
        Err(e) => return Err(e.to_string()),
    };
    let mut member = match archive.by_name(name) {
        Ok(m) => m,
        Err(e) => return Err(e.to_string()),
    };
    let mut content = String::new();
    match std::io::Read::read_to_string(&mut member, &mut content) {
        Ok(_) => Ok(content),
        Err(e) => Err(e.to_string()),
    }
}

/// What parsing XML returns: all nodes of the document in document order, a
/// function of the text alone; nothing when the text is not well-formed XML.
pub uninterp spec fn xml_nodes_of(s: Seq<char>) -> Option<Seq<XmlNodeModel>>;

/// Relies on roxmltree::Document::parse: the document's nodes in document
/// order, each converted to its id, its parent's id, its element tag name
/// (empty for non-element nodes) and its text.
#[verifier::external_body]
fn xml_nodes(content: &str) -> (r: Result<Vec<XmlNode>, String>)
    ensures
        (r is Ok) == (xml_nodes_of(content@) is Some),
        r matches Ok(ns) ==> xml_nodes_of(content@) == Some(ns.deep_view()),
{
    let doc = match roxmltree::Document::parse(content) {
        Ok(d) => d,
        Err(e) => return Err(e.to_string()),
    };
    Ok(doc.descendants().map(|n| XmlNode {
        id: n.id().get(),
        parent: n.parent().map(|p| p.id().get()),
        tag: n.tag_name().name().to_string(),
        text: n.text().map(|t| t.to_string()),
    }).collect())
}

/// The first node with the given id, if any.
pub open spec fn lookup(nodes: Seq<XmlNodeModel>, id: u32) -> Option<XmlNodeModel>
    decreases nodes.len(),
{
    if nodes.len() == 0 {
        Option::None
    } else if nodes[0].id == id {
        Option::Some(nodes[0])
    } else {
        lookup(nodes.skip(1), id)
    }
}

/// Whether following parent links from `from` reaches `to` in at most `fuel`
/// steps.
pub open spec fn reaches(nodes: Seq<XmlNodeModel>, from: u32, to: u32, fuel: nat) -> bool
    decreases fuel,
{
    if from == to {
        true
    } else if fuel == 0 {
        false
    } else {
        match lookup(nodes, from) {
            Option::None => false,
            Option::Some(n) => match n.parent {
                Option::None => false,
                Option::Some(pid) => reaches(nodes, pid, to, (fuel - 1) as nat),
            },
        }
    }
}

/// Whether the node with id `from` lies in the subtree of the node with id
/// `to` (a node lies in its own subtree).  Parent chains longer than the
/// node count cannot be genuine ancestry, so the walk is bounded by it.
pub open spec fn in_subtree(nodes: Seq<XmlNodeModel>, from: u32, to: u32) -> bool {
    reaches(nodes, from, to, nodes.len())
}

/// Parent id of the first node with the given id: `None` when no node has
/// the id, `Some(p)` when one does and its parent field is `p`.
#[verifier::loop_isolation(false)]
fn lookup_parent(nodes: &Vec<XmlNode>, id: u32) -> (r: Option<Option<u32>>)
    ensures
        match lookup(nodes.deep_view(), id) {
            Option::None => r is None,
            Option::Some(n) => r == Option::Some(n.parent),
        },
{
    let ghost dv = nodes.deep_view();
    proof {
        assert(dv.skip(0) =~= dv);
    }
    let mut k: usize = 0;
    while k < nodes.len()
        invariant
            k <= nodes.len(),
            lookup(dv, id) == lookup(dv.skip(k as int), id),
        decreases nodes.len() - k,
    {
        if nodes[k].id == id {
            proof {
                assert(dv.skip(k as int)[0] == dv[k as int]);
            }
            return Option::Some(nodes[k].parent);
        }
        proof {
            assert(dv.skip(k as int)[0] == dv[k as int]);
            assert(dv.skip(k as int).skip(1) =~= dv.skip(k + 1));
        }
        k = k + 1;
    }
    proof {
        assert(dv.skip(k as int).len() == 0);
    }
    Option::None
}

/// Whether the node with id `from` lies in the subtree of the node with id
/// `to`, by walking parent links.
#[verifier::loop_isolation(false)]
fn in_subtree_exec(nodes: &Vec<XmlNode>, from: u32, to: u32) -> (r: bool)
    ensures
        r == in_subtree(nodes.deep_view(), from, to),
{
    let ghost dv = nodes.deep_view();
    let mut cur = from;
    let mut fuel = nodes.len();
    loop
        invariant
            fuel <= nodes.len(),
            reaches(dv, cur, to, fuel as nat) == in_subtree(dv, from, to),
        decreases fuel,
    {
        if cur == to {
            return true;
        }
        if fuel == 0 {
            return false;
        }
        match lookup_parent(nodes, cur) {
            Option::None => {
                return false;
            },
            Option::Some(Option::None) => {
                return false;
            },
            Option::Some(Option::Some(pid)) => {
                cur = pid;
                fuel = fuel - 1;
            },
        }
    }
}

/// Contribution of one node to the text under the `<p>` node with id `pid`:
/// its text when it is a `<t>` element in that subtree, nothing otherwise.
pub open spec fn t_contrib(nodes: Seq<XmlNodeModel>, n: XmlNodeModel, pid: u32) -> Seq<char> {
    if n.tag == "t"@ && in_subtree(nodes, n.id, pid) {
        match n.text {
            Option::Some(t) => t,
            Option::None => Seq::empty(),
        }
    } else {
        Seq::empty()
    }
}

/// Text of the first `k` nodes that are `<t>` elements under `pid`,
/// concatenated in document order.
pub open spec fn texts_under(nodes: Seq<XmlNodeModel>, pid: u32, k: int) -> Seq<char>
    decreases k,
{
    if k <= 0 {
        Seq::empty()
    } else {
        texts_under(nodes, pid, k - 1) + t_contrib(nodes, nodes[k - 1], pid)
    }
}

/// Contribution of one node to the document text: the text under it plus a
/// newline when it is a `<p>` element, nothing otherwise.
pub open spec fn p_contrib(nodes: Seq<XmlNodeModel>, n: XmlNodeModel) -> Seq<char> {
    if n.tag == "p"@ {
        texts_under(nodes, n.id, nodes.len() as int) + "\n"@
    } else {
        Seq::empty()
    }
}

/// Document text of the first `k` nodes' paragraphs.
pub open spec fn docx_text_upto(nodes: Seq<XmlNodeModel>, k: int) -> Seq<char>
    decreases k,
{
    if k <= 0 {
        Seq::empty()
    } else {
        docx_text_upto(nodes, k - 1) + p_contrib(nodes, nodes[k - 1])
    }
}

/// The whole document text: per `<p>` element in document order, the text
/// of every `<t>` descendant, then a newline.
pub open spec fn spec_docx_text(nodes: Seq<XmlNodeModel>) -> Seq<char> {
    docx_text_upto(nodes, nodes.len() as int)
}

/// Concatenate the text of every `<t>` descendant of each `<p>` element,
/// one newline-terminated paragraph per `<p>`.
#[verifier::loop_isolation(false)]
pub fn extract_docx_text(nodes: &Vec<XmlNode>) -> (r: String)
    ensures
        r@ == spec_docx_text(nodes.deep_view()),
{
    let ghost dv = nodes.deep_view();
    let mut out = String::new();
    let mut i: usize = 0;
    while i < nodes.len()
        invariant
            i <= nodes.len(),
            out@ == docx_text_upto(dv, i as int),
        decreases nodes.len() - i,
    {
        if str_eq(nodes[i].tag.as_str(), "p") {
            let pid = nodes[i].id;
            let mut j: usize = 0;
            while j < nodes.len()
                invariant
                    j <= nodes.len(),
                    out@ == docx_text_upto(dv, i as int) + texts_under(dv, pid, j as int),
                decreases nodes.len() - j,
            {
                if str_eq(nodes[j].tag.as_str(), "t") && in_subtree_exec(nodes, nodes[j].id, pid) {
                    if let Option::Some(t) = &nodes[j].text {
                        out.append(t.as_str());
                    }
                }
                j = j + 1;
            }
            out.append("\n");
        }
        i = i + 1;
    }
    out
}

/// Extract the text of a DOCX file from its bytes: the member
/// `word/document.xml` is read from the archive, parsed as XML, and its
/// paragraph text concatenated.  Fails, with the underlying reader's
/// message, when the archive is malformed, the member is absent, or the XML
/// cannot be parsed.
pub fn read_docx(bytes: &Vec<u8>) -> (r: Result<String, String>)
    ensures
        match zip_member_text_of(bytes@, "word/document.xml"@) {
            Option::None => r is Err,
            Option::Some(x) => match xml_nodes_of(x) {
                Option::None => r is Err,
                Option::Some(ns) => r matches Ok(t) && t@ == spec_docx_text(ns),
            },
        },
{
    let content = match zip_member_text(bytes, "word/document.xml") {
        Ok(c) => c,
        Err(m) => {
            return Err(m);
        },
    };
    let nodes = match xml_nodes(content.as_str()) {
        Ok(ns) => ns,
        Err(m) => {
            return Err(m);
        },
    };
    Ok(extract_docx_text(&nodes))
}

} // verus!
