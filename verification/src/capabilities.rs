use vstd::prelude::*;
use vstd::string::StringExecFns;
use crate::errors::{ParseError, ParseErrorV};
use crate::text::{
    check_f64_chars, find_char, first_index_of, is_f64_text, is_u32_text, parse_u32_chars,
    str_to_chars, subvec_chars, u32_text_value, chars_to_string,
};
use crate::url_template::UrlTemplate;
use crate::xml::{
    attribute_value, element_text, find_child_elem, find_child_element, find_descendant,
    find_in_element, parse_xml, spec_attr, spec_element_text, xml_root_of, XmlChild, XmlElement,
};

verus! {

/// One zoom level of the tile pyramid. The scale denominator and the corner
/// coordinates are held as their validated decimal text: navigation never
/// computes with them, and a malformed text is rejected while parsing.
#[derive(Debug)]
pub struct TileMatrix {
    pub identifier: String,
    pub scale_denominator: String,
    pub top_left_x: String,
    pub top_left_y: String,
    pub tile_width: u32,
    pub tile_height: u32,
    pub matrix_width: u32,
    pub matrix_height: u32,
}

/// The spec-level value of a `TileMatrix`, with its texts as character
/// sequences.
pub struct TileMatrixV {
    pub identifier: Seq<char>,
    pub scale_denominator: Seq<char>,
    pub top_left_x: Seq<char>,
    pub top_left_y: Seq<char>,
    pub tile_width: u32,
    pub tile_height: u32,
    pub matrix_width: u32,
    pub matrix_height: u32,
}

impl View for TileMatrix {
    type V = TileMatrixV;

    open spec fn view(&self) -> TileMatrixV {
        TileMatrixV {
            identifier: self.identifier@,
            scale_denominator: self.scale_denominator@,
            top_left_x: self.top_left_x@,
            top_left_y: self.top_left_y@,
            tile_width: self.tile_width,
            tile_height: self.tile_height,
            matrix_width: self.matrix_width,
            matrix_height: self.matrix_height,
        }
    }
}

/// The field values a `TileMatrix` has before any child element sets them.
pub open spec fn default_matrix_v() -> TileMatrixV {
    TileMatrixV {
        identifier: Seq::<char>::empty(),
        scale_denominator: "0"@,
        top_left_x: "0"@,
        top_left_y: "0"@,
        tile_width: 0,
        tile_height: 0,
        matrix_width: 0,
        matrix_height: 0,
    }
}

/// What the `TopLeftCorner` text does to the matrix under construction: up to
/// two space-separated decimal numbers, assigned positionally; a malformed
/// piece, or more than two pieces, is an invalid number.
pub open spec fn apply_corner(acc: TileMatrixV, t: Seq<char>) -> Result<TileMatrixV, ParseErrorV> {
    let k = first_index_of(t, ' ');
    if k == -1 {
        if is_f64_text(t) {
            Ok(TileMatrixV { top_left_x: t, ..acc })
        } else {
            Err(ParseErrorV::InvalidNumber { field: "TopLeftCorner"@, value: t })
        }
    } else {
        let p0 = t.take(k);
        let p1 = t.skip(k + 1);
        if first_index_of(p1, ' ') != -1 {
            Err(ParseErrorV::InvalidNumber { field: "TopLeftCorner"@, value: t })
        } else if !is_f64_text(p0) {
            Err(ParseErrorV::InvalidNumber { field: "TopLeftCorner"@, value: p0 })
        } else if !is_f64_text(p1) {
            Err(ParseErrorV::InvalidNumber { field: "TopLeftCorner"@, value: p1 })
        } else {
            Ok(TileMatrixV { top_left_x: p0, top_left_y: p1, ..acc })
        }
    }
}

/// What one recognized child element does to the matrix under construction,
/// by its tag and its text.
pub open spec fn apply_field(acc: TileMatrixV, tag: Seq<char>, t: Seq<char>) -> Result<
    TileMatrixV,
    ParseErrorV,
> {
    if tag == "Identifier"@ {
        Ok(TileMatrixV { identifier: t, ..acc })
    } else if tag == "ScaleDenominator"@ {
        if is_f64_text(t) {
            Ok(TileMatrixV { scale_denominator: t, ..acc })
        } else {
            Err(ParseErrorV::InvalidNumber { field: "ScaleDenominator"@, value: t })
        }
    } else if tag == "TileWidth"@ {
        if is_u32_text(t) {
            Ok(TileMatrixV { tile_width: u32_text_value(t) as u32, ..acc })
        } else {
            Err(ParseErrorV::InvalidNumber { field: "TileWidth"@, value: t })
        }
    } else if tag == "TileHeight"@ {
        if is_u32_text(t) {
            Ok(TileMatrixV { tile_height: u32_text_value(t) as u32, ..acc })
        } else {
            Err(ParseErrorV::InvalidNumber { field: "TileHeight"@, value: t })
        }
    } else if tag == "MatrixWidth"@ {
        if is_u32_text(t) {
            Ok(TileMatrixV { matrix_width: u32_text_value(t) as u32, ..acc })
        } else {
            Err(ParseErrorV::InvalidNumber { field: "MatrixWidth"@, value: t })
        }
    } else if tag == "MatrixHeight"@ {
        if is_u32_text(t) {
            Ok(TileMatrixV { matrix_height: u32_text_value(t) as u32, ..acc })
        } else {
            Err(ParseErrorV::InvalidNumber { field: "MatrixHeight"@, value: t })
        }
    } else if tag == "TopLeftCorner"@ {
        apply_corner(acc, t)
    } else {
        Ok(acc)
    }
}

/// What one child node does to the matrix under construction: a child that is
/// not an element, or that has no text, is skipped.
pub open spec fn apply_child(acc: TileMatrixV, c: XmlChild) -> Result<TileMatrixV, ParseErrorV> {
    match c {
        XmlChild::Element(el) => match spec_element_text(el) {
            Some(t) => apply_field(acc, el.tag@, t),
            None => Ok(acc),
        },
        _ => Ok(acc),
    }
}

/// The children applied in document order; the first invalid number stops the
/// matrix.
pub open spec fn fold_children(cs: Seq<XmlChild>, acc: TileMatrixV) -> Result<
    TileMatrixV,
    ParseErrorV,
>
    decreases cs.len(),
{
    if cs.len() == 0 {
        Ok(acc)
    } else {
        match apply_child(acc, cs[0]) {
            Ok(a2) => fold_children(cs.drop_first(), a2),
            Err(e) => Err(e),
        }
    }
}

/// The matrix a `TileMatrix` element describes, or the first invalid number
/// in it.
pub open spec fn spec_from_node(e: XmlElement) -> Result<TileMatrixV, ParseErrorV> {
    fold_children(e.children@, default_matrix_v())
}

impl TileMatrix {
    /// Reads one `TileMatrix` element: each recognized child element sets the
    /// field its tag names, later children overriding earlier ones; children
    /// with no text, and unrecognized tags, are skipped; the first malformed
    /// numeric field stops the matrix with the field and the offending text.
    pub fn from_node(e: &XmlElement) -> (r: Result<TileMatrix, ParseError>)
        ensures
            r matches Ok(m) ==> spec_from_node(*e) == Ok::<TileMatrixV, ParseErrorV>(m@),
            r matches Err(er) ==> spec_from_node(*e) == Err::<TileMatrixV, ParseErrorV>(er@),
    {
        let mut m = TileMatrix {
            identifier: String::new(),
            scale_denominator: String::from_str("0"),
            top_left_x: String::from_str("0"),
            top_left_y: String::from_str("0"),
            tile_width: 0,
            tile_height: 0,
            matrix_width: 0,
            matrix_height: 0,
        };
        proof {
            assert(m@ == default_matrix_v());
            assert(e.children@.skip(0) =~= e.children@);
        }
        let cs = &e.children;
        let mut i: usize = 0;
        while i < cs.len()
            invariant
                0 <= i <= cs@.len(),
                cs@ == e.children@,
                fold_children(e.children@, default_matrix_v()) == fold_children(
                    e.children@.skip(i as int),
                    m@,
                ),
            decreases cs@.len() - i,
        {
            let ghost m0 = m@;
            proof {
                assert(cs@.skip(i as int)[0] == cs@[i as int]);
                assert(cs@.skip(i as int).drop_first() =~= cs@.skip(i + 1));
            }
            match &cs[i] {
                XmlChild::Element(el) => {
                    match element_text(el) {
                        Some(t) => {
                            match Self::apply_field_exec(&mut m, el, t) {
                                Ok(()) => {
                                    proof {
                                        assert(apply_child(m0, cs@[i as int]) == Ok::<
                                            TileMatrixV,
                                            ParseErrorV,
                                        >(m@));
                                    }
                                },
                                Err(er) => {
                                    proof {
                                        assert(apply_child(m0, cs@[i as int]) == Err::<
                                            TileMatrixV,
                                            ParseErrorV,
                                        >(er@));
                                    }
                                    return Err(er);
                                },
                            }
                        },
                        None => {},
                    }
                },
                _ => {},
            }
            i = i + 1;
        }
        proof {
            assert(cs@.skip(cs@.len() as int) =~= Seq::<XmlChild>::empty());
        }
        Ok(m)
    }

    /// One recognized child element applied to the matrix under construction.
    fn apply_field_exec(m: &mut TileMatrix, el: &XmlElement, t: &String) -> (r: Result<
        (),
        ParseError,
    >)
        requires
            spec_element_text(*el) == Some(t@),
        ensures
            r matches Ok(()) ==> apply_field(old(m)@, el.tag@, t@) == Ok::<
                TileMatrixV,
                ParseErrorV,
            >(final(m)@),
            r matches Err(er) ==> apply_field(old(m)@, el.tag@, t@) == Err::<
                TileMatrixV,
                ParseErrorV,
            >(er@) && *final(m) == *old(m),
    {
        if el.tag == String::from_str("Identifier") {
            m.identifier = t.clone();
            Ok(())
        } else if el.tag == String::from_str("ScaleDenominator") {
            let cv = str_to_chars(t.as_str());
            if check_f64_chars(&cv) {
                m.scale_denominator = t.clone();
                Ok(())
            } else {
                Err(ParseError::InvalidNumber {
                    field: String::from_str("ScaleDenominator"),
                    value: t.clone(),
                })
            }
        } else if el.tag == String::from_str("TileWidth") {
            let cv = str_to_chars(t.as_str());
            match parse_u32_chars(&cv) {
                Some(n) => {
                    m.tile_width = n;
                    Ok(())
                },
                None => Err(ParseError::InvalidNumber {
                    field: String::from_str("TileWidth"),
                    value: t.clone(),
                }),
            }
        } else if el.tag == String::from_str("TileHeight") {
            let cv = str_to_chars(t.as_str());
            match parse_u32_chars(&cv) {
                Some(n) => {
                    m.tile_height = n;
                    Ok(())
                },
                None => Err(ParseError::InvalidNumber {
                    field: String::from_str("TileHeight"),
                    value: t.clone(),
                }),
            }
        } else if el.tag == String::from_str("MatrixWidth") {
            let cv = str_to_chars(t.as_str());
            match parse_u32_chars(&cv) {
                Some(n) => {
                    m.matrix_width = n;
                    Ok(())
                },
                None => Err(ParseError::InvalidNumber {
                    field: String::from_str("MatrixWidth"),
                    value: t.clone(),
                }),
            }
        } else if el.tag == String::from_str("MatrixHeight") {
            let cv = str_to_chars(t.as_str());
            match parse_u32_chars(&cv) {
                Some(n) => {
                    m.matrix_height = n;
                    Ok(())
                },
                None => Err(ParseError::InvalidNumber {
                    field: String::from_str("MatrixHeight"),
                    value: t.clone(),
                }),
            }
        } else if el.tag == String::from_str("TopLeftCorner") {
            let cv = str_to_chars(t.as_str());
            match find_char(&cv, ' ') {
                None => {
                    if check_f64_chars(&cv) {
                        m.top_left_x = t.clone();
                        Ok(())
                    } else {
                        Err(ParseError::InvalidNumber {
                            field: String::from_str("TopLeftCorner"),
                            value: t.clone(),
                        })
                    }
                },
                Some(k) => {
                    let p0 = subvec_chars(&cv, 0, k);
                    let p1 = subvec_chars(&cv, k + 1, cv.len());
                    proof {
                        assert(p0@ =~= t@.take(k as int));
                        assert(p1@ =~= t@.skip(k + 1));
                    }
                    match find_char(&p1, ' ') {
                        Some(_) => Err(ParseError::InvalidNumber {
                            field: String::from_str("TopLeftCorner"),
                            value: t.clone(),
                        }),
                        None => {
                            if !check_f64_chars(&p0) {
                                Err(ParseError::InvalidNumber {
                                    field: String::from_str("TopLeftCorner"),
                                    value: chars_to_string(&p0),
                                })
                            } else if !check_f64_chars(&p1) {
                                Err(ParseError::InvalidNumber {
                                    field: String::from_str("TopLeftCorner"),
                                    value: chars_to_string(&p1),
                                })
                            } else {
                                m.top_left_x = chars_to_string(&p0);
                                m.top_left_y = chars_to_string(&p1);
                                Ok(())
                            }
                        },
                    }
                },
            }
        } else {
            Ok(())
        }
    }
}

// ---------------------------------------------------------------------------
// The set of tile matrices
// ---------------------------------------------------------------------------

/// The matrices of a capabilities document, keyed by identifier; a later
/// entry with the same identifier overrides an earlier one.
#[derive(Debug)]
pub struct TileMatrixSet {
    entries: Vec<TileMatrix>,
}

/// The map the entries describe, inserted in order (last wins).
pub open spec fn entries_map(s: Seq<TileMatrix>) -> Map<Seq<char>, TileMatrixV>
    decreases s.len(),
{
    if s.len() == 0 {
        Map::<Seq<char>, TileMatrixV>::empty()
    } else {
        entries_map(s.drop_last()).insert(s.last().identifier@, s.last()@)
    }
}

impl View for TileMatrixSet {
    type V = Map<Seq<char>, TileMatrixV>;

    closed spec fn view(&self) -> Map<Seq<char>, TileMatrixV> {
        entries_map(self.entries@)
    }
}

/// The last entry whose identifier is `k` gives the map's value at `k`.
proof fn lemma_entries_map_found(s: Seq<TileMatrix>, i: int, k: Seq<char>)
    requires
        0 <= i < s.len(),
        s[i].identifier@ == k,
        forall|j: int| i < j < s.len() ==> s[j].identifier@ != k,
    ensures
        entries_map(s).contains_key(k),
        entries_map(s)[k] == s[i]@,
    decreases s.len(),
{
    if i == s.len() - 1 {
    } else {
        assert(s.drop_last()[i] == s[i]);
        lemma_entries_map_found(s.drop_last(), i, k);
    }
}

/// A key no entry carries is not in the map.
proof fn lemma_entries_map_absent(s: Seq<TileMatrix>, k: Seq<char>)
    requires
        forall|j: int| 0 <= j < s.len() ==> s[j].identifier@ != k,
    ensures
        !entries_map(s).contains_key(k),
    decreases s.len(),
{
    if s.len() > 0 {
        lemma_entries_map_absent(s.drop_last(), k);
    }
}

impl TileMatrixSet {
    /// An empty set.
    pub fn new() -> (r: TileMatrixSet)
        ensures
            r@ == Map::<Seq<char>, TileMatrixV>::empty(),
    {
        TileMatrixSet { entries: Vec::new() }
    }

    /// Adds `m` under its identifier, overriding any earlier matrix with the
    /// same identifier.
    pub fn insert(&mut self, m: TileMatrix)
        ensures
            final(self)@ == old(self)@.insert(m.identifier@, m@),
    {
        let ghost before = self.entries@;
        self.entries.push(m);
        proof {
            assert(self.entries@.drop_last() =~= before);
        }
    }

    /// Looks up the matrix with identifier `id`.
    pub fn get<'a>(&'a self, id: &str) -> (r: Option<&'a TileMatrix>)
        ensures
            r matches Some(m) ==> self@.contains_key(id@) && m@ == self@[id@],
            r is None ==> !self@.contains_key(id@),
    {
        let key = String::from_str(id);
        let mut i: usize = self.entries.len();
        while i > 0
            invariant
                0 <= i <= self.entries@.len(),
                key@ == id@,
                forall|j: int| i <= j < self.entries@.len() ==> self.entries@[j].identifier@
                    != id@,
            decreases i,
        {
            i = i - 1;
            if self.entries[i].identifier == key {
                proof {
                    lemma_entries_map_found(self.entries@, i as int, id@);
                }
                return Some(&self.entries[i]);
            }
        }
        proof {
            lemma_entries_map_absent(self.entries@, id@);
        }
        None
    }
}

// ---------------------------------------------------------------------------
// The whole capabilities document
// ---------------------------------------------------------------------------

/// The matrices defined by the children of a `TileMatrixSet` element, in
/// order; a matrix with an invalid number is skipped, and a later matrix with
/// the same identifier overrides an earlier one.
pub open spec fn spec_collect_matrices(cs: Seq<XmlChild>, m: Map<Seq<char>, TileMatrixV>) -> Map<
    Seq<char>,
    TileMatrixV,
>
    decreases cs.len(),
{
    if cs.len() == 0 {
        m
    } else {
        let m2 = match cs[0] {
            XmlChild::Element(el) => if el.tag@ == "TileMatrix"@ {
                match spec_from_node(el) {
                    Ok(tm) => m.insert(tm.identifier, tm),
                    Err(_) => m,
                }
            } else {
                m
            },
            _ => m,
        };
        spec_collect_matrices(cs.drop_first(), m2)
    }
}

/// What a capabilities document's root element describes: the address
/// template of the first `ResourceURL` under `Contents` (empty when the
/// attribute is absent), and the matrices of the first `TileMatrixSet` child
/// of `Contents`.
pub open spec fn spec_parse_capabilities(root: XmlElement) -> Result<
    (Seq<char>, Map<Seq<char>, TileMatrixV>),
    ParseErrorV,
> {
    match find_child_elem(root.children@, "Contents"@) {
        None => Err(ParseErrorV::MissingElement { name: "Contents"@ }),
        Some(contents) => match find_in_element(contents, "ResourceURL"@) {
            None => Err(ParseErrorV::MissingElement { name: "ResourceURL"@ }),
            Some(ru) => {
                let template = match spec_attr(ru.attributes@, "template"@) {
                    Some(t) => t,
                    None => Seq::<char>::empty(),
                };
                match find_child_elem(contents.children@, "TileMatrixSet"@) {
                    None => Err(ParseErrorV::MissingElement { name: "TileMatrixSet"@ }),
                    Some(tms) => Ok(
                        (
                            template,
                            spec_collect_matrices(
                                tms.children@,
                                Map::<Seq<char>, TileMatrixV>::empty(),
                            ),
                        ),
                    ),
                }
            },
        },
    }
}

/// Parses a WMTS capabilities document: its tile-address template and its
/// tile matrices. Malformed XML, and a missing `Contents`, `ResourceURL` or
/// `TileMatrixSet`, stop the parse; a single matrix with an invalid number is
/// skipped, its siblings kept.
pub fn parse_wmts_xml(text: &str) -> (r: Result<(UrlTemplate, TileMatrixSet), ParseError>)
    ensures
        (match xml_root_of(text@) {
            Some(root) => match spec_parse_capabilities(root) {
                Ok(c) => r matches Ok(p) && p.0@ == c.0 && p.1@ == c.1,
                Err(ev) => r matches Err(er) && er@ == ev,
            },
            None => r matches Err(er) && er@ == ParseErrorV::Syntax,
        }),
{
    let root = match parse_xml(text) {
        Ok(root) => root,
        Err(e) => {
            return Err(e);
        },
    };
    let contents = match find_child_element(&root, &String::from_str("Contents")) {
        Some(c) => c,
        None => {
            return Err(ParseError::MissingElement { name: String::from_str("Contents") });
        },
    };
    let ru = match find_descendant(contents, &String::from_str("ResourceURL")) {
        Some(n) => n,
        None => {
            return Err(ParseError::MissingElement { name: String::from_str("ResourceURL") });
        },
    };
    let template = match attribute_value(ru, &String::from_str("template")) {
        Some(t) => t.clone(),
        None => String::new(),
    };
    let tms = match find_child_element(contents, &String::from_str("TileMatrixSet")) {
        Some(n) => n,
        None => {
            return Err(ParseError::MissingElement { name: String::from_str("TileMatrixSet") });
        },
    };
    let mut set = TileMatrixSet::new();
    let cs = &tms.children;
    let mut i: usize = 0;
    proof {
        assert(cs@.skip(0) =~= cs@);
    }
    while i < cs.len()
        invariant
            0 <= i <= cs@.len(),
            cs@ == tms.children@,
            spec_collect_matrices(cs@, Map::<Seq<char>, TileMatrixV>::empty())
                == spec_collect_matrices(cs@.skip(i as int), set@),
        decreases cs@.len() - i,
    {
        let ghost set0 = set@;
        proof {
            assert(cs@.skip(i as int)[0] == cs@[i as int]);
            assert(cs@.skip(i as int).drop_first() =~= cs@.skip(i + 1));
        }
        match &cs[i] {
            XmlChild::Element(el) => {
                if el.tag == String::from_str("TileMatrix") {
                    match TileMatrix::from_node(el) {
                        Ok(m) => {
                            set.insert(m);
                        },
                        Err(_) => {},
                    }
                }
            },
            _ => {},
        }
        i = i + 1;
    }
    proof {
        assert(cs@.skip(cs@.len() as int) =~= Seq::<XmlChild>::empty());
    }
    Ok((UrlTemplate::new(template), set))
}

// ---------------------------------------------------------------------------
// Order independence of the fields of a TileMatrix element
// ---------------------------------------------------------------------------

/// The tags that set a field of a `TileMatrix`.
pub open spec fn recognized_tag(tag: Seq<char>) -> bool {
    ||| tag == "Identifier"@
    ||| tag == "ScaleDenominator"@
    ||| tag == "TileWidth"@
    ||| tag == "TileHeight"@
    ||| tag == "MatrixWidth"@
    ||| tag == "MatrixHeight"@
    ||| tag == "TopLeftCorner"@
}

/// Whether a `TopLeftCorner` text is accepted: one or two space-separated
/// decimal numbers.
pub open spec fn corner_ok(t: Seq<char>) -> bool {
    let k = first_index_of(t, ' ');
    if k == -1 {
        is_f64_text(t)
    } else {
        &&& first_index_of(t.skip(k + 1), ' ') == -1
        &&& is_f64_text(t.take(k))
        &&& is_f64_text(t.skip(k + 1))
    }
}

/// Whether a field's text is accepted for its tag.
pub open spec fn field_ok(tag: Seq<char>, t: Seq<char>) -> bool {
    if tag == "ScaleDenominator"@ {
        is_f64_text(t)
    } else if tag == "TileWidth"@ || tag == "TileHeight"@ || tag == "MatrixWidth"@ || tag
        == "MatrixHeight"@ {
        is_u32_text(t)
    } else if tag == "TopLeftCorner"@ {
        corner_ok(t)
    } else {
        true
    }
}

/// A child that is a recognized field element with text the field accepts.
pub open spec fn good_field_child(c: XmlChild) -> bool {
    match c {
        XmlChild::Element(el) => match spec_element_text(el) {
            Some(t) => recognized_tag(el.tag@) && field_ok(el.tag@, t),
            None => false,
        },
        _ => false,
    }
}

/// The tag of a child element.
pub open spec fn child_tag(c: XmlChild) -> Seq<char> {
    c->Element_0.tag@
}

/// The text of the first child element tagged `tag` that carries text.
pub open spec fn find_field_text(cs: Seq<XmlChild>, tag: Seq<char>) -> Option<Seq<char>>
    decreases cs.len(),
{
    if cs.len() == 0 {
        None
    } else {
        match cs[0] {
            XmlChild::Element(el) => match spec_element_text(el) {
                Some(t) => if el.tag@ == tag {
                    Some(t)
                } else {
                    find_field_text(cs.drop_first(), tag)
                },
                None => find_field_text(cs.drop_first(), tag),
            },
            _ => find_field_text(cs.drop_first(), tag),
        }
    }
}

proof fn lemma_find_field_text_absent(cs: Seq<XmlChild>, tag: Seq<char>)
    requires
        forall|i: int| 0 <= i < cs.len() ==> #[trigger] child_tag(cs[i]) != tag,
    ensures
        find_field_text(cs, tag) is None,
    decreases cs.len(),
{
    if cs.len() > 0 {
        assert(child_tag(cs[0]) != tag);
        lemma_find_field_text_absent(cs.drop_first(), tag);
    }
}

/// The first piece of a corner text.
pub open spec fn corner_x_of(t: Seq<char>) -> Seq<char> {
    let k = first_index_of(t, ' ');
    if k == -1 {
        t
    } else {
        t.take(k)
    }
}

/// The second piece of a corner text, when there is one; else the value the
/// field already had.
pub open spec fn corner_y_of(t: Seq<char>, prior: Seq<char>) -> Seq<char> {
    let k = first_index_of(t, ' ');
    if k == -1 {
        prior
    } else {
        t.skip(k + 1)
    }
}

/// A field's value after the fold: the text of the tag's one element when the
/// fragment holds one, else what the fold started with.
pub open spec fn text_or(o: Option<Seq<char>>, dflt: Seq<char>) -> Seq<char> {
    match o {
        Some(t) => t,
        None => dflt,
    }
}

/// A numeric field's value after the fold.
pub open spec fn num_or(o: Option<Seq<char>>, dflt: u32) -> u32 {
    match o {
        Some(t) => u32_text_value(t) as u32,
        None => dflt,
    }
}

/// Folding children that are recognized field elements with accepted texts
/// and pairwise distinct tags succeeds, and each field of the result is
/// determined by its tag's text alone — not by where the tag's element
/// stands among its siblings.

/// The seven recognized tags are pairwise distinct texts.
proof fn lemma_tags_distinct()
    ensures
        "Identifier"@ != "ScaleDenominator"@,
        "Identifier"@ != "TileWidth"@,
        "Identifier"@ != "TileHeight"@,
        "Identifier"@ != "MatrixWidth"@,
        "Identifier"@ != "MatrixHeight"@,
        "Identifier"@ != "TopLeftCorner"@,
        "ScaleDenominator"@ != "TileWidth"@,
        "ScaleDenominator"@ != "TileHeight"@,
        "ScaleDenominator"@ != "MatrixWidth"@,
        "ScaleDenominator"@ != "MatrixHeight"@,
        "ScaleDenominator"@ != "TopLeftCorner"@,
        "TileWidth"@ != "TileHeight"@,
        "TileWidth"@ != "MatrixWidth"@,
        "TileWidth"@ != "MatrixHeight"@,
        "TileWidth"@ != "TopLeftCorner"@,
        "TileHeight"@ != "MatrixWidth"@,
        "TileHeight"@ != "MatrixHeight"@,
        "TileHeight"@ != "TopLeftCorner"@,
        "MatrixWidth"@ != "MatrixHeight"@,
        "MatrixWidth"@ != "TopLeftCorner"@,
        "MatrixHeight"@ != "TopLeftCorner"@,
{
    reveal_strlit("Identifier");
    reveal_strlit("ScaleDenominator");
    reveal_strlit("TileWidth");
    reveal_strlit("TileHeight");
    reveal_strlit("MatrixWidth");
    reveal_strlit("MatrixHeight");
    reveal_strlit("TopLeftCorner");
    assert("Identifier"@.len() == 10);
    assert("ScaleDenominator"@.len() == 16);
    assert("TileWidth"@.len() == 9);
    assert("TileHeight"@.len() == 10);
    assert("MatrixWidth"@.len() == 11);
    assert("MatrixHeight"@.len() == 12);
    assert("TopLeftCorner"@.len() == 13);
    assert("Identifier"@[0] == 'I');
    assert("TileHeight"@[0] == 'T');
    assert("Identifier"@ != "ScaleDenominator"@);
    assert("Identifier"@ != "TileWidth"@);
    assert("Identifier"@ != "TileHeight"@);
    assert("Identifier"@ != "MatrixWidth"@);
    assert("Identifier"@ != "MatrixHeight"@);
    assert("Identifier"@ != "TopLeftCorner"@);
    assert("ScaleDenominator"@ != "TileWidth"@);
    assert("ScaleDenominator"@ != "TileHeight"@);
    assert("ScaleDenominator"@ != "MatrixWidth"@);
    assert("ScaleDenominator"@ != "MatrixHeight"@);
    assert("ScaleDenominator"@ != "TopLeftCorner"@);
    assert("TileWidth"@ != "TileHeight"@);
    assert("TileWidth"@ != "MatrixWidth"@);
    assert("TileWidth"@ != "MatrixHeight"@);
    assert("TileWidth"@ != "TopLeftCorner"@);
    assert("TileHeight"@ != "MatrixWidth"@);
    assert("TileHeight"@ != "MatrixHeight"@);
    assert("TileHeight"@ != "TopLeftCorner"@);
    assert("MatrixWidth"@ != "MatrixHeight"@);
    assert("MatrixWidth"@ != "TopLeftCorner"@);
    assert("MatrixHeight"@ != "TopLeftCorner"@);
}

/// One accepted field application, characterized field by field.
#[verifier::rlimit(100)]
proof fn lemma_apply_field_fields(acc: TileMatrixV, tag: Seq<char>, t: Seq<char>)
    requires
        recognized_tag(tag),
        field_ok(tag, t),
    ensures
        apply_field(acc, tag, t) is Ok,
        apply_field(acc, tag, t) matches Ok(a2) && a2.identifier == (if tag == "Identifier"@ {
            t
        } else {
            acc.identifier
        }),
        apply_field(acc, tag, t) matches Ok(a2) && a2.scale_denominator == (if tag
            == "ScaleDenominator"@ {
            t
        } else {
            acc.scale_denominator
        }),
        apply_field(acc, tag, t) matches Ok(a2) && a2.top_left_x == (if tag
            == "TopLeftCorner"@ {
            corner_x_of(t)
        } else {
            acc.top_left_x
        }),
        apply_field(acc, tag, t) matches Ok(a2) && a2.top_left_y == (if tag
            == "TopLeftCorner"@ {
            corner_y_of(t, acc.top_left_y)
        } else {
            acc.top_left_y
        }),
        apply_field(acc, tag, t) matches Ok(a2) && a2.tile_width == (if tag == "TileWidth"@ {
            u32_text_value(t) as u32
        } else {
            acc.tile_width
        }),
        apply_field(acc, tag, t) matches Ok(a2) && a2.tile_height == (if tag == "TileHeight"@ {
            u32_text_value(t) as u32
        } else {
            acc.tile_height
        }),
        apply_field(acc, tag, t) matches Ok(a2) && a2.matrix_width == (if tag
            == "MatrixWidth"@ {
            u32_text_value(t) as u32
        } else {
            acc.matrix_width
        }),
        apply_field(acc, tag, t) matches Ok(a2) && a2.matrix_height == (if tag
            == "MatrixHeight"@ {
            u32_text_value(t) as u32
        } else {
            acc.matrix_height
        }),
{
    lemma_tags_distinct();
    if tag == "Identifier"@ {
        assert(apply_field(acc, tag, t) == Ok::<TileMatrixV, ParseErrorV>(
            TileMatrixV { identifier: t, ..acc },
        ));
    } else if tag == "ScaleDenominator"@ {
        assert(apply_field(acc, tag, t) == Ok::<TileMatrixV, ParseErrorV>(
            TileMatrixV { scale_denominator: t, ..acc },
        ));
    } else if tag == "TileWidth"@ {
        assert(apply_field(acc, tag, t) == Ok::<TileMatrixV, ParseErrorV>(
            TileMatrixV { tile_width: u32_text_value(t) as u32, ..acc },
        ));
    } else if tag == "TileHeight"@ {
        assert(apply_field(acc, tag, t) == Ok::<TileMatrixV, ParseErrorV>(
            TileMatrixV { tile_height: u32_text_value(t) as u32, ..acc },
        ));
    } else if tag == "MatrixWidth"@ {
        assert(apply_field(acc, tag, t) == Ok::<TileMatrixV, ParseErrorV>(
            TileMatrixV { matrix_width: u32_text_value(t) as u32, ..acc },
        ));
    } else if tag == "MatrixHeight"@ {
        assert(apply_field(acc, tag, t) == Ok::<TileMatrixV, ParseErrorV>(
            TileMatrixV { matrix_height: u32_text_value(t) as u32, ..acc },
        ));
    } else {
        assert(tag == "TopLeftCorner"@);
        if first_index_of(t, ' ') == -1 {
            assert(apply_field(acc, tag, t) == Ok::<TileMatrixV, ParseErrorV>(
                TileMatrixV { top_left_x: t, ..acc },
            ));
        } else {
            assert(apply_field(acc, tag, t) == Ok::<TileMatrixV, ParseErrorV>(
                TileMatrixV {
                    top_left_x: t.take(first_index_of(t, ' ')),
                    top_left_y: t.skip(first_index_of(t, ' ') + 1),
                    ..acc
                },
            ));
        }
    }
}

/// Folding children that are recognized field elements with accepted texts
/// and pairwise distinct tags succeeds, and each field of the result is
/// determined by its tag's text alone — not by where the tag's element
/// stands among its siblings.
#[verifier::rlimit(100)]
pub proof fn lemma_fold_fields(cs: Seq<XmlChild>, acc: TileMatrixV)
    requires
        forall|i: int| 0 <= i < cs.len() ==> #[trigger] good_field_child(cs[i]),
        forall|i: int, j: int| 0 <= i < j < cs.len() ==> child_tag(cs[i]) != child_tag(cs[j]),
    ensures
        fold_children(cs, acc) is Ok,
        fold_children(cs, acc)->Ok_0.identifier == text_or(
            find_field_text(cs, "Identifier"@),
            acc.identifier,
        ),
        fold_children(cs, acc)->Ok_0.scale_denominator == text_or(
            find_field_text(cs, "ScaleDenominator"@),
            acc.scale_denominator,
        ),
        fold_children(cs, acc)->Ok_0.top_left_x == (match find_field_text(
            cs,
            "TopLeftCorner"@,
        ) {
            Some(t) => corner_x_of(t),
            None => acc.top_left_x,
        }),
        fold_children(cs, acc)->Ok_0.top_left_y == (match find_field_text(
            cs,
            "TopLeftCorner"@,
        ) {
            Some(t) => corner_y_of(t, acc.top_left_y),
            None => acc.top_left_y,
        }),
        fold_children(cs, acc)->Ok_0.tile_width == num_or(
            find_field_text(cs, "TileWidth"@),
            acc.tile_width,
        ),
        fold_children(cs, acc)->Ok_0.tile_height == num_or(
            find_field_text(cs, "TileHeight"@),
            acc.tile_height,
        ),
        fold_children(cs, acc)->Ok_0.matrix_width == num_or(
            find_field_text(cs, "MatrixWidth"@),
            acc.matrix_width,
        ),
        fold_children(cs, acc)->Ok_0.matrix_height == num_or(
            find_field_text(cs, "MatrixHeight"@),
            acc.matrix_height,
        ),
    decreases cs.len(),
{
    lemma_tags_distinct();
    if cs.len() == 0 {
    } else {
        assert(good_field_child(cs[0]));
        let el = cs[0]->Element_0;
        let t = spec_element_text(el)->Some_0;
        lemma_apply_field_fields(acc, el.tag@, t);
        let acc2 = apply_field(acc, el.tag@, t)->Ok_0;
        assert(apply_child(acc, cs[0]) == Ok::<TileMatrixV, ParseErrorV>(acc2));
        let tail = cs.drop_first();
        assert(fold_children(cs, acc) == fold_children(tail, acc2));
        assert forall|i: int| 0 <= i < tail.len() implies #[trigger] good_field_child(
            tail[i],
        ) by {
            assert(tail[i] == cs[i + 1]);
        }
        assert forall|i: int, j: int| 0 <= i < j < tail.len() implies child_tag(tail[i])
            != child_tag(tail[j]) by {
            assert(tail[i] == cs[i + 1] && tail[j] == cs[j + 1]);
        }
        lemma_fold_fields(tail, acc2);
        assert forall|i: int| 0 <= i < tail.len() implies #[trigger] child_tag(tail[i])
            != el.tag@ by {
            assert(tail[i] == cs[i + 1]);
            assert(child_tag(cs[0]) != child_tag(cs[i + 1]));
        }
        lemma_find_field_text_absent(tail, el.tag@);
        assert(find_field_text(cs, el.tag@) == Some(t));
        if el.tag@ != "Identifier"@ {
            assert(find_field_text(cs, "Identifier"@) == find_field_text(tail, "Identifier"@));
        }
        if el.tag@ != "ScaleDenominator"@ {
            assert(find_field_text(cs, "ScaleDenominator"@) == find_field_text(
                tail,
                "ScaleDenominator"@,
            ));
        }
        if el.tag@ != "TileWidth"@ {
            assert(find_field_text(cs, "TileWidth"@) == find_field_text(tail, "TileWidth"@));
        }
        if el.tag@ != "TileHeight"@ {
            assert(find_field_text(cs, "TileHeight"@) == find_field_text(tail, "TileHeight"@));
        }
        if el.tag@ != "MatrixWidth"@ {
            assert(find_field_text(cs, "MatrixWidth"@) == find_field_text(
                tail,
                "MatrixWidth"@,
            ));
        }
        if el.tag@ != "MatrixHeight"@ {
            assert(find_field_text(cs, "MatrixHeight"@) == find_field_text(
                tail,
                "MatrixHeight"@,
            ));
        }
        if el.tag@ != "TopLeftCorner"@ {
            assert(find_field_text(cs, "TopLeftCorner"@) == find_field_text(
                tail,
                "TopLeftCorner"@,
            ));
        }
    }
}

/// Reading a `TileMatrix` fragment does not depend on the order of its
/// children: two fragments whose recognized field elements carry the same
/// texts, tag for tag — in whatever order, each tag at most once — read as
/// the same matrix.
pub proof fn lemma_from_node_order_independent(e1: XmlElement, e2: XmlElement)
    requires
        forall|i: int| 0 <= i < e1.children@.len() ==> #[trigger] good_field_child(
            e1.children@[i],
        ),
        forall|i: int| 0 <= i < e2.children@.len() ==> #[trigger] good_field_child(
            e2.children@[i],
        ),
        forall|i: int, j: int| 0 <= i < j < e1.children@.len() ==> child_tag(e1.children@[i])
            != child_tag(e1.children@[j]),
        forall|i: int, j: int| 0 <= i < j < e2.children@.len() ==> child_tag(e2.children@[i])
            != child_tag(e2.children@[j]),
        forall|tag: Seq<char>| recognized_tag(tag) ==> #[trigger] find_field_text(
            e1.children@,
            tag,
        ) == find_field_text(e2.children@, tag),
    ensures
        spec_from_node(e1) == spec_from_node(e2),
{
    lemma_fold_fields(e1.children@, default_matrix_v());
    lemma_fold_fields(e2.children@, default_matrix_v());
    assert(find_field_text(e1.children@, "Identifier"@) == find_field_text(
        e2.children@,
        "Identifier"@,
    ));
    assert(find_field_text(e1.children@, "ScaleDenominator"@) == find_field_text(
        e2.children@,
        "ScaleDenominator"@,
    ));
    assert(find_field_text(e1.children@, "TileWidth"@) == find_field_text(
        e2.children@,
        "TileWidth"@,
    ));
    assert(find_field_text(e1.children@, "TileHeight"@) == find_field_text(
        e2.children@,
        "TileHeight"@,
    ));
    assert(find_field_text(e1.children@, "MatrixWidth"@) == find_field_text(
        e2.children@,
        "MatrixWidth"@,
    ));
    assert(find_field_text(e1.children@, "MatrixHeight"@) == find_field_text(
        e2.children@,
        "MatrixHeight"@,
    ));
    assert(find_field_text(e1.children@, "TopLeftCorner"@) == find_field_text(
        e2.children@,
        "TopLeftCorner"@,
    ));
}

} // verus!
