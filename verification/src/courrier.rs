//! What the mail parser reads in a raw message, as plain values.

use mail_parser::MimeHeaders;
use vstd::prelude::*;

verus! {

/// A contact of an address field.
pub struct Contact {
    pub nom: Option<String>,
    pub adresse: Option<String>,
}

/// What a contact holds.
pub struct ContactVue {
    pub nom: Option<Seq<char>>,
    pub adresse: Option<Seq<char>>,
}

/// What an optional text holds.
pub open spec fn vue_texte(t: Option<String>) -> Option<Seq<char>> {
    match t {
        Some(s) => Some(s@),
        None => None,
    }
}

impl View for Contact {
    type V = ContactVue;

    open spec fn view(&self) -> ContactVue {
        ContactVue { nom: vue_texte(self.nom), adresse: vue_texte(self.adresse) }
    }
}

/// The headers of a message, decoded.
pub struct EntetesLus {
    pub sujet: Option<String>,
    pub message_id: Option<String>,
    /// Contacts of the `From` field, if there is one.
    pub expediteurs: Option<Vec<Contact>>,
    /// The `Date` field: in the format of RFC 3339, and in Unix seconds.
    pub date: Option<(String, i64)>,
}

/// What the headers of a message hold.
pub struct EntetesLusVue {
    pub sujet: Option<Seq<char>>,
    pub message_id: Option<Seq<char>>,
    pub expediteurs: Option<Seq<ContactVue>>,
    pub date: Option<(Seq<char>, i64)>,
}

/// What some contacts hold.
pub open spec fn vues_contacts(v: Seq<Contact>) -> Seq<ContactVue> {
    v.map_values(|c: Contact| c@)
}

impl View for EntetesLus {
    type V = EntetesLusVue;

    open spec fn view(&self) -> EntetesLusVue {
        EntetesLusVue {
            sujet: vue_texte(self.sujet),
            message_id: vue_texte(self.message_id),
            expediteurs: match self.expediteurs {
                Some(v) => Some(vues_contacts(v@)),
                None => None,
            },
            date: match self.date {
                Some((t, n)) => Some((t@, n)),
                None => None,
            },
        }
    }
}

/// What the mail parser finds of the body of a message.
pub struct CorpsLu {
    /// The first part that can be read as text: whether it is HTML, and its text.
    pub partie: Option<(bool, Option<String>)>,
    /// The first text body, converted from HTML where it is none.
    pub texte: Option<String>,
    /// The first HTML body, converted from text where it is none.
    pub html: Option<String>,
}

/// What the body of a message holds.
pub struct CorpsLuVue {
    pub partie: Option<(bool, Option<Seq<char>>)>,
    pub texte: Option<Seq<char>>,
    pub html: Option<Seq<char>>,
}

impl View for CorpsLu {
    type V = CorpsLuVue;

    open spec fn view(&self) -> CorpsLuVue {
        CorpsLuVue {
            partie: match self.partie {
                Some((h, t)) => Some((h, vue_texte(t))),
                None => None,
            },
            texte: vue_texte(self.texte),
            html: vue_texte(self.html),
        }
    }
}

/// What the mail parser finds of an attachment.
pub struct PieceLue {
    /// The type and subtype that the part declares.
    pub declare: Option<(String, Option<String>)>,
    /// Whether the part is a message itself.
    pub message: bool,
    /// The file name that the sender gave.
    pub nom: Option<String>,
    pub contenu: Vec<u8>,
}

/// What an attachment holds.
pub struct PieceLueVue {
    pub declare: Option<(Seq<char>, Option<Seq<char>>)>,
    pub message: bool,
    pub nom: Option<Seq<char>>,
    pub contenu: Seq<u8>,
}

impl View for PieceLue {
    type V = PieceLueVue;

    open spec fn view(&self) -> PieceLueVue {
        PieceLueVue {
            declare: match self.declare {
                Some((t, s)) => Some((t@, vue_texte(s))),
                None => None,
            },
            message: self.message,
            nom: vue_texte(self.nom),
            contenu: self.contenu@,
        }
    }
}

/// What some attachments hold.
pub open spec fn vues_pieces(v: Seq<PieceLue>) -> Seq<PieceLueVue> {
    v.map_values(|p: PieceLue| p@)
}

/// What `MessageParser::parse` reads of the headers of a message; nothing where it
/// finds no header at all.
pub uninterp spec fn entetes_du_brut(brut: Seq<u8>) -> Option<EntetesLusVue>;

/// What `MessageParser::parse` reads of the body of a message; nothing where it
/// finds no header at all.
pub uninterp spec fn corps_du_brut(brut: Seq<u8>) -> Option<CorpsLuVue>;

/// What `MessageParser::parse` reads of the attachments of a message, in the order
/// of the message; nothing where it finds no header at all.
pub uninterp spec fn pieces_du_brut(brut: Seq<u8>) -> Option<Seq<PieceLueVue>>;

/// What `MessageParser::parse_headers` reads of the `Message-ID` of a message.
pub uninterp spec fn identifiant_du_brut(brut: Seq<u8>) -> Option<Seq<char>>;

/// `mail_parser::MessageParser::parse` with the header accessors of `Message`:
/// `subject`, `message_id`, `from`, `date`. The parser takes any bytes, and what it
/// reads depends on them alone; what it makes of them is left to it.
#[verifier::external_body]
pub(crate) fn lire_entetes(brut: &[u8]) -> (r: Option<EntetesLus>)
    ensures
        match r {
            Some(e) => entetes_du_brut(brut@) == Some(e@),
            None => entetes_du_brut(brut@) is None,
        },
{
    let m = mail_parser::MessageParser::default().parse(brut)?;
    let texte = |t: &str| t.to_string();
    Some(EntetesLus {
        sujet: m.subject().map(texte),
        message_id: m.message_id().map(texte),
        expediteurs: m.from().map(|f| {
            let contact = |a: &mail_parser::Addr<'_>| Contact {
                nom: a.name().map(texte),
                adresse: a.address().map(texte),
            };
            f.iter().map(contact).collect()
        }),
        date: m.date().map(|d| (d.to_rfc3339(), d.to_timestamp())),
    })
}

/// `mail_parser::MessageParser::parse` with the body accessors of `Message`:
/// `text_part`, `body_text`, `body_html`. The parser takes any bytes, and what it
/// reads depends on them alone; what it makes of them is left to it.
#[verifier::external_body]
pub(crate) fn lire_corps(brut: &[u8]) -> (r: Option<CorpsLu>)
    ensures
        match r {
            Some(c) => corps_du_brut(brut@) == Some(c@),
            None => corps_du_brut(brut@) is None,
        },
{
    let m = mail_parser::MessageParser::default().parse(brut)?;
    let partie = m.text_part(0);
    Some(CorpsLu {
        partie: partie.map(|p| (p.is_text_html(), p.text_contents().map(|t| t.to_string()))),
        texte: m.body_text(0).map(|t| t.into_owned()),
        html: m.body_html(0).map(|t| t.into_owned()),
    })
}

/// `mail_parser::MessageParser::parse` with `Message::attachments` and the
/// accessors of `MessagePart`: `content_type`, `is_message`, `attachment_name`,
/// `contents`. The parser takes any bytes, and what it reads depends on them alone;
/// what it makes of them is left to it.
#[verifier::external_body]
pub(crate) fn lire_pieces(brut: &[u8]) -> (r: Option<Vec<PieceLue>>)
    ensures
        match r {
            Some(v) => pieces_du_brut(brut@) == Some(vues_pieces(v@)),
            None => pieces_du_brut(brut@) is None,
        },
{
    let m = mail_parser::MessageParser::default().parse(brut)?;
    let texte = |t: &str| t.to_string();
    let piece = |p: &mail_parser::MessagePart<'_>| PieceLue {
        declare: p.content_type().map(|c| (c.ctype().to_string(), c.subtype().map(texte))),
        message: p.is_message(),
        nom: p.attachment_name().map(texte),
        contenu: p.contents().to_vec(),
    };
    Some(m.attachments().map(piece).collect())
}

/// `mail_parser::MessageParser::parse_headers` with `Message::message_id`. The
/// parser takes any bytes, and what it reads depends on them alone; what it makes of
/// them is left to it.
#[verifier::external_body]
pub(crate) fn lire_message_id(brut: &[u8]) -> (r: Option<String>)
    ensures
        vue_texte(r) == identifiant_du_brut(brut@),
{
    let m = mail_parser::MessageParser::default().parse_headers(brut)?;
    m.message_id().map(|t| t.to_string())
}

} // verus!
