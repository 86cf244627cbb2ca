//! Reading a settings document.
//!
//! The markup is read by the crate `quick_xml`. What it reads is spoken of as a sequence of
//! [`Item`]s; what the items mean is settled in [`document`](super::document).

use vstd::prelude::*;

use quick_xml::events::attributes::{AttrError, Attribute, Attributes};
use quick_xml::events::{BytesEnd, BytesStart, Event};
use quick_xml::Reader;

use super::document::{attr_views, blank_draft, opened, shut, Attr, AttrModel, Draft, DraftModel};
use super::{Config, ConfigError, ConfigErrorModel, ConfigModel};

verus! {

// ── what the XML reader gives ──────────────────────────────────────────────────

/// An XML reader.
#[verifier::external_type_specification]
#[verifier::external_body]
#[verifier::reject_recursive_types(R)]
pub struct ExReader<R>(Reader<R>);

/// A start tag or an empty tag.
#[verifier::external_type_specification]
#[verifier::external_body]
pub struct ExBytesStart<'a>(BytesStart<'a>);

/// An end tag.
#[verifier::external_type_specification]
#[verifier::external_body]
pub struct ExBytesEnd<'a>(BytesEnd<'a>);

/// The attributes of a tag, given one after the other.
#[verifier::external_type_specification]
#[verifier::external_body]
pub struct ExAttributes<'a>(Attributes<'a>);

/// An attribute of a tag.
#[verifier::external_type_specification]
#[verifier::external_body]
pub struct ExAttribute<'a>(Attribute<'a>);

/// What an XML reader gives at one step.
pub enum XmlEvent<'a> {
    /// A start tag.
    Start(BytesStart<'a>),
    /// An empty tag.
    Empty(BytesStart<'a>),
    /// An end tag.
    End(BytesEnd<'a>),
    /// Text, a comment, a declaration or the like.
    Other,
    /// The end of the document.
    Eof,
}

/// What one step of reading comes to.
pub enum Item {
    /// A start tag or an empty tag: its name and its attributes.
    Open(Seq<u8>, Seq<AttrItem>),
    /// An end tag: its name.
    Close(Seq<u8>),
    /// Text, a comment, a declaration or the like.
    Other,
    /// The end of the document.
    Eof,
    /// A fault in the markup: the error that tells of it.
    Fault(quick_xml::Error),
}

/// What one step of reading the attributes of a tag comes to.
pub enum AttrItem {
    /// An attribute: its name, and its value as it stands between the quotes.
    Pair(Seq<u8>, Seq<u8>),
    /// A fault in the attributes: the error that tells of it.
    Fault(AttrError),
}

/// Whether reading stops with the item.
pub open spec fn is_last(i: Item) -> bool {
    i is Eof || i is Fault
}

/// Whether the items are those of a whole document, from some point on: the last one, and only
/// that, is the end or a fault.
pub open spec fn is_stream(items: Seq<Item>) -> bool {
    &&& items.len() > 0
    &&& is_last(items.last())
    &&& forall|i: int| 0 <= i < items.len() - 1 ==> !is_last(#[trigger] items[i])
}

/// The items that a reader of the text gives, up to the end or the first fault.
pub uninterp spec fn items_of(xml: Seq<char>) -> Seq<Item>;

/// The items that a reader has still to give, up to the end or the next fault.
pub uninterp spec fn pending(r: Reader<&[u8]>) -> Seq<Item>;

/// The name of a start tag.
pub uninterp spec fn start_name(e: BytesStart<'_>) -> Seq<u8>;

/// The attributes of a start tag, in their order.
pub uninterp spec fn start_attributes(e: BytesStart<'_>) -> Seq<AttrItem>;

/// The attributes that are still to be given.
pub uninterp spec fn attributes_left(it: Attributes<'_>) -> Seq<AttrItem>;

/// The name of an end tag.
pub uninterp spec fn end_name(e: BytesEnd<'_>) -> Seq<u8>;

/// The text that a raw attribute value writes, with its entities and character references
/// resolved; where that cannot be done, the error that tells why.
pub uninterp spec fn unescaped(raw: Seq<u8>) -> Result<Seq<char>, quick_xml::Error>;

/// The item of an event.
pub open spec fn item_of(e: XmlEvent<'_>) -> Item {
    match e {
        XmlEvent::Start(t) => Item::Open(start_name(t), start_attributes(t)),
        XmlEvent::Empty(t) => Item::Open(start_name(t), start_attributes(t)),
        XmlEvent::End(t) => Item::Close(end_name(t)),
        XmlEvent::Other => Item::Other,
        XmlEvent::Eof => Item::Eof,
    }
}

/// The item of an attribute.
pub open spec fn attr_item_of(a: Result<(Vec<u8>, Vec<u8>), AttrError>) -> AttrItem {
    match a {
        Ok((key, value)) => AttrItem::Pair(key@, value@),
        Err(e) => AttrItem::Fault(e),
    }
}

/// `quick_xml::Reader::from_str` makes a reader of the text, here with the option `trim_text`.
/// Claimed: what it will give depends on the text alone, and comes to an end or to a fault.
#[verifier::external_body]
fn open_reader(xml: &str) -> (r: Reader<&[u8]>)
    ensures
        pending(r) == items_of(xml@),
        is_stream(pending(r)),
{
    let mut reader = Reader::from_str(xml);
    reader.config_mut().trim_text(true);
    reader
}

/// `quick_xml::Reader::read_event` gives the next item, or an error where the markup is at
/// fault. Claimed: the item, or the error, is the first of those that were still to come, and
/// unless reading stops here, the rest stays to be read.
#[verifier::external_body]
fn next_event<'a>(r: &mut Reader<&'a [u8]>) -> (e: Result<XmlEvent<'a>, quick_xml::Error>)
    requires
        is_stream(pending(*old(r))),
    ensures
        match e {
            Ok(v) => pending(*old(r))[0] == item_of(v),
            Err(x) => pending(*old(r))[0] == Item::Fault(x),
        },
        !is_last(pending(*old(r))[0]) ==> pending(*final(r)) == pending(*old(r)).skip(1),
{
    match r.read_event() {
        Ok(Event::Start(t)) => Ok(XmlEvent::Start(t)),
        Ok(Event::Empty(t)) => Ok(XmlEvent::Empty(t)),
        Ok(Event::End(t)) => Ok(XmlEvent::End(t)),
        Ok(Event::Eof) => Ok(XmlEvent::Eof),
        Ok(_) => Ok(XmlEvent::Other),
        Err(e) => Err(e),
    }
}

/// `quick_xml::events::BytesStart::name` gives the name of a start tag.
#[verifier::external_body]
fn name_of_start(e: &BytesStart<'_>) -> (r: Vec<u8>)
    ensures
        r@ == start_name(*e),
{
    e.name().as_ref().to_vec()
}

/// `quick_xml::events::BytesEnd::name` gives the name of an end tag.
#[verifier::external_body]
fn name_of_end(e: &BytesEnd<'_>) -> (r: Vec<u8>)
    ensures
        r@ == end_name(*e),
{
    e.name().as_ref().to_vec()
}

/// `quick_xml::events::BytesStart::attributes` gives the attributes of a start tag.
#[verifier::external_body]
fn attributes_of_start<'a>(e: &'a BytesStart<'_>) -> (r: Attributes<'a>)
    ensures
        attributes_left(r) == start_attributes(*e),
{
    e.attributes()
}

/// `quick_xml::events::attributes::Attributes::next` gives the next attribute as its name and its
/// raw value, or an error where it is at fault. Claimed: the attribute, or the error, is the first of
/// those that were still to come, and the rest stays to be given.
#[verifier::external_body]
fn next_attribute(it: &mut Attributes<'_>) -> (r: Option<Result<(Vec<u8>, Vec<u8>), AttrError>>)
    ensures
        match r {
            Some(a) => attributes_left(*old(it)).len() > 0 && attributes_left(*old(it))[0]
                == attr_item_of(a) && attributes_left(*final(it)) == attributes_left(
                *old(it),
            ).skip(1),
            None => attributes_left(*old(it)).len() == 0,
        },
{
    match it.next() {
        Some(Ok(a)) => Some(Ok((a.key.as_ref().to_vec(), a.value.to_vec()))),
        Some(Err(e)) => Some(Err(e)),
        None => None,
    }
}

/// `quick_xml::events::attributes::Attribute::unescape_value` resolves the entities and
/// character references of a raw value, or gives an error where it cannot. Claimed: the text, or the
/// error, depends on the raw value alone.
#[verifier::external_body]
fn unescape(raw: &Vec<u8>) -> (r: Result<String, quick_xml::Error>)
    ensures
        match r {
            Ok(s) => unescaped(raw@) == Ok::<Seq<char>, quick_xml::Error>(s@),
            Err(x) => unescaped(raw@) == Err::<Seq<char>, quick_xml::Error>(x),
        },
{
    match Attribute::from((&b""[..], raw.as_slice())).unescape_value() {
        Ok(s) => Ok(s.into_owned()),
        Err(e) => Err(e),
    }
}

// ── what the library makes of it ───────────────────────────────────────────────

/// The attributes with their values resolved, or the first fault among them.
pub open spec fn resolved(items: Seq<AttrItem>) -> Result<Seq<AttrModel>, ConfigErrorModel>
    decreases items.len(),
{
    if items.len() == 0 {
        Ok(Seq::empty())
    } else {
        match resolved(items.drop_last()) {
            Err(e) => Err(e),
            Ok(a) => match items.last() {
                AttrItem::Fault(x) => Err(ConfigErrorModel::Attr(x)),
                AttrItem::Pair(key, raw) => match unescaped(raw) {
                    Err(x) => Err(ConfigErrorModel::Xml(x)),
                    Ok(value) => Ok(a.push(AttrModel { key, value })),
                },
            },
        }
    }
}

/// The settings that a draft becomes with the items of the rest of a document, or the first
/// fault among them.
pub open spec fn finished(d: DraftModel, items: Seq<Item>) -> Result<ConfigModel, ConfigErrorModel>
    decreases items.len(),
{
    if items.len() == 0 {
        Ok(d.config)
    } else {
        match items[0] {
            Item::Eof => Ok(d.config),
            Item::Fault(x) => Err(ConfigErrorModel::Xml(x)),
            Item::Other => finished(d, items.skip(1)),
            Item::Close(tag) => finished(shut(d, tag), items.skip(1)),
            Item::Open(tag, attrs) => match resolved(attrs) {
                Err(e) => Err(e),
                Ok(a) => match opened(d, tag, a) {
                    Err(e) => Err(e),
                    Ok(next) => finished(next, items.skip(1)),
                },
            },
        }
    }
}

/// A document with a fault in its markup is refused, whatever stands before the fault.
pub proof fn faulty_markup_is_refused(d: DraftModel, items: Seq<Item>)
    requires
        is_stream(items),
        items.last() is Fault,
    ensures
        finished(d, items) is Err,
    decreases items.len(),
{
    if items.len() > 1 {
        let rest = items.skip(1);
        assert(!is_last(items[0]));
        assert forall|i: int| 0 <= i < rest.len() - 1 implies !is_last(#[trigger] rest[i]) by {
            assert(!is_last(items[i + 1]));
        }
        match items[0] {
            Item::Close(tag) => faulty_markup_is_refused(shut(d, tag), rest),
            Item::Open(tag, attrs) => {
                if let Ok(a) = resolved(attrs) {
                    if let Ok(next) = opened(d, tag, a) {
                        faulty_markup_is_refused(next, rest);
                    }
                }
            },
            _ => faulty_markup_is_refused(d, rest),
        }
    }
}

proof fn lemma_attributes_fail(items: Seq<AttrItem>, i: int)
    requires
        0 <= i < items.len(),
        resolved(items.take(i + 1)) is Err,
    ensures
        resolved(items) == resolved(items.take(i + 1)),
    decreases items.len(),
{
    if i == items.len() - 1 {
        assert(items.take(i + 1) =~= items);
    } else {
        assert(items.drop_last().take(i + 1) =~= items.take(i + 1));
        lemma_attributes_fail(items.drop_last(), i);
    }
}

fn read_attributes(e: &BytesStart<'_>) -> (r: Result<Vec<Attr>, ConfigError>)
    ensures
        match r {
            Ok(v) => resolved(start_attributes(*e)) == Ok::<Seq<AttrModel>, ConfigErrorModel>(
                attr_views(v@),
            ),
            Err(x) => resolved(start_attributes(*e)) == Err::<Seq<AttrModel>, ConfigErrorModel>(
                x@,
            ),
        },
{
    let mut it = attributes_of_start(e);
    let ghost items = start_attributes(*e);
    let ghost mut n: int = 0;
    let mut r: Vec<Attr> = Vec::new();
    proof {
        assert(attr_views(r@) =~= Seq::empty());
        assert(items.skip(0) =~= items);
    }
    loop
        invariant
            items == start_attributes(*e),
            0 <= n <= items.len(),
            attributes_left(it) == items.skip(n),
            resolved(items.take(n)) == Ok::<Seq<AttrModel>, ConfigErrorModel>(attr_views(r@)),
        decreases attributes_left(it).len(),
    {
        let a = match next_attribute(&mut it) {
            Some(a) => a,
            None => {
                assert(items.take(n) =~= items);
                return Ok(r);
            },
        };
        proof {
            assert(items.take(n + 1).drop_last() =~= items.take(n));
            assert(items.take(n + 1).last() == attr_item_of(a));
            assert(items.skip(n).skip(1) =~= items.skip(n + 1));
            if resolved(items.take(n + 1)) is Err {
                lemma_attributes_fail(items, n);
            }
            n = n + 1;
        }
        let (key, raw) = match a {
            Ok(pair) => pair,
            Err(x) => return Err(ConfigError::Attr(x)),
        };
        let value = match unescape(&raw) {
            Ok(s) => s,
            Err(x) => return Err(ConfigError::Xml(x)),
        };
        let ghost before = r@;
        let attr = Attr { key, value };
        let ghost model = attr@;
        r.push(attr);
        proof {
            assert(attr_views(r@) =~= attr_views(before).push(model));
        }
    }
}

impl Config {
    /// Reads a settings document. Where the markup, an attribute or an entity is at fault, the error
    /// of the XML reader is handed on.
    pub fn parse(xml: &str) -> (r: Result<Config, ConfigError>)
        ensures
            match r {
                Ok(c) => finished(blank_draft(), items_of(xml@)) == Ok::<
                    ConfigModel,
                    ConfigErrorModel,
                >(c@),
                Err(e) => finished(blank_draft(), items_of(xml@)) == Err::<
                    ConfigModel,
                    ConfigErrorModel,
                >(e@),
            },
    {
        let mut reader = open_reader(xml);
        let mut draft = Draft::new();
        loop
            invariant
                is_stream(pending(reader)),
                finished(blank_draft(), items_of(xml@)) == finished(draft@, pending(reader)),
            decreases pending(reader).len(),
        {
            let ghost items = pending(reader);
            let event = match next_event(&mut reader) {
                Ok(e) => e,
                Err(e) => return Err(ConfigError::Xml(e)),
            };
            match event {
                XmlEvent::Start(t) | XmlEvent::Empty(t) => {
                    let a = match read_attributes(&t) {
                        Ok(a) => a,
                        Err(e) => return Err(e),
                    };
                    match draft.open(&name_of_start(&t), &a) {
                        Ok(_) => {},
                        Err(e) => {
                            return Err(e);
                        },
                    }
                },
                XmlEvent::End(t) => {
                    draft.close(&name_of_end(&t));
                },
                XmlEvent::Other => {},
                XmlEvent::Eof => {
                    return Ok(draft.config);
                },
            }
        }
    }
}

/// A document is read item by item: an element makes what it says of the settings so far, with its
/// attributes resolved, or ends the reading with its fault; the end of an element makes what it
/// says; anything else between them says nothing; the end of the document leaves the settings as
/// they are; and a fault in the markup ends the reading.
pub proof fn documents_are_read_item_by_item(
    d: DraftModel,
    tag: Seq<u8>,
    attrs: Seq<AttrItem>,
    x: quick_xml::Error,
    rest: Seq<Item>,
)
    ensures
        finished(d, seq![Item::Eof] + rest) == Ok::<ConfigModel, ConfigErrorModel>(d.config),
        finished(d, seq![Item::Other] + rest) == finished(d, rest),
        finished(d, seq![Item::Close(tag)] + rest) == finished(shut(d, tag), rest),
        finished(d, seq![Item::Fault(x)] + rest) == Err::<ConfigModel, ConfigErrorModel>(
            ConfigErrorModel::Xml(x),
        ),
        resolved(attrs) matches Err(e) ==> finished(d, seq![Item::Open(tag, attrs)] + rest) == Err::<
            ConfigModel,
            ConfigErrorModel,
        >(e),
        resolved(attrs) matches Ok(a) ==> finished(d, seq![Item::Open(tag, attrs)] + rest)
            == match opened(d, tag, a) {
            Ok(e) => finished(e, rest),
            Err(e) => Err::<ConfigModel, ConfigErrorModel>(e),
        },
{
    assert((seq![Item::Eof] + rest)[0] == Item::Eof);
    assert((seq![Item::Other] + rest).skip(1) =~= rest);
    assert((seq![Item::Close(tag)] + rest).skip(1) =~= rest);
    assert((seq![Item::Fault(x)] + rest)[0] == Item::Fault(x));
    assert((seq![Item::Open(tag, attrs)] + rest).skip(1) =~= rest);
}

/// Attributes are resolved where each of them can be, and keep their names and their order. Else
/// the first fault among them counts.
pub proof fn attributes_are_resolved_one_by_one(attrs: Seq<AttrItem>)
    ensures
        resolved(attrs) matches Ok(a) ==> a.len() == attrs.len() && forall|i: int|
            0 <= i < attrs.len() ==> (#[trigger] attrs[i] matches AttrItem::Pair(key, raw)
                && a[i].key == key && unescaped(raw) == Ok::<Seq<char>, quick_xml::Error>(
                a[i].value,
            )),
        resolved(attrs) is Err ==> exists|i: int|
            0 <= i < attrs.len() && resolved(attrs.take(i)) is Ok && (#[trigger] attrs[i] matches
                AttrItem::Pair(_, raw) ==> (unescaped(raw) matches Err(x) && resolved(attrs)
                == Err::<Seq<AttrModel>, ConfigErrorModel>(ConfigErrorModel::Xml(x)))) && (
            attrs[i] matches AttrItem::Fault(x) ==> resolved(attrs) == Err::<
                Seq<AttrModel>,
                ConfigErrorModel,
            >(ConfigErrorModel::Attr(x))),
    decreases attrs.len(),
{
    if attrs.len() > 0 {
        let init = attrs.drop_last();
        let n = attrs.len() - 1;
        attributes_are_resolved_one_by_one(init);
        assert(attrs.take(n) =~= init);
        if resolved(init) is Err {
            let i = choose|i: int|
                0 <= i < init.len() && resolved(init.take(i)) is Ok && (#[trigger] init[i] matches
                    AttrItem::Pair(_, raw) ==> (unescaped(raw) matches Err(x) && resolved(init)
                    == Err::<Seq<AttrModel>, ConfigErrorModel>(ConfigErrorModel::Xml(x)))) && (
                init[i] matches AttrItem::Fault(x) ==> resolved(init) == Err::<
                    Seq<AttrModel>,
                    ConfigErrorModel,
                >(ConfigErrorModel::Attr(x)));
            assert(attrs.take(i) =~= init.take(i));
            assert(attrs[i] == init[i]);
        } else {
            assert(attrs[n] == attrs.last());
            if let Ok(a) = resolved(attrs) {
                let b = resolved(init)->Ok_0;
                assert forall|i: int| 0 <= i < attrs.len() implies (#[trigger] attrs[i] matches
                    AttrItem::Pair(key, raw) && a[i].key == key && unescaped(raw) == Ok::<
                    Seq<char>,
                    quick_xml::Error,
                >(a[i].value)) by {
                    if i < n {
                        assert(attrs[i] == init[i]);
                        assert(a[i] == b[i]);
                    }
                }
            }
        }
    }
}

} // verus!
