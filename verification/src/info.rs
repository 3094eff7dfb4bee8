//! The pages of the server and user information commands.
use vstd::prelude::*;
use crate::animanga::{field_views, EmbedField};
use crate::text::{decimal_digits, decimal_string, push_decimal, push_str};

verus! {

/// What the server information page shows of a guild.
pub struct ServerFacts {
    pub id: u64,
    pub boosters: u64,
    pub owner_id: u64,
    pub created: String,
    pub emojis: usize,
    pub stickers: usize,
    pub members: u64,
    pub max_members: u64,
    pub roles: usize,
    pub channels: usize,
    pub large: bool,
}

/// The fields of the server information page, in order.
pub open spec fn server_fields_spec(f: ServerFacts) -> Seq<(Seq<char>, Seq<char>, bool)> {
    seq![
        ("Guild ID"@, decimal_digits(f.id as nat), true),
        ("Guild boosters:"@, decimal_digits(f.boosters as nat), false),
        ("Owner id:"@, decimal_digits(f.owner_id as nat), true),
        ("Creation date:"@, f.created@, false),
        ("Emoji count:"@, decimal_digits(f.emojis as nat), true),
        ("Sticker count:"@, decimal_digits(f.stickers as nat), false),
        ("Members count:"@, decimal_digits(f.members as nat) + seq!['/'] + decimal_digits(
            f.max_members as nat,
        ), true),
        ("Role count:"@, decimal_digits(f.roles as nat), false),
        ("Channels:"@, decimal_digits(f.channels as nat), true),
        ("Server size:"@, if f.large {
            "Large"@
        } else {
            "Not large"@
        }, true),
    ]
}

/// Appends a field.
fn add_field(fields: &mut Vec<EmbedField>, name: &str, value: String, inline: bool)
    ensures
        field_views(final(fields)@) == field_views(old(fields)@).push((name@, value@, inline)),
{
    let f = EmbedField { name: String::from_str(name), value, inline };
    fields.push(f);
    assert(field_views(final(fields)@) =~= field_views(old(fields)@).push((name@, f.value@, inline)));
}

/// The fields of the server information page.
pub fn server_fields(f: &ServerFacts) -> (fields: Vec<EmbedField>)
    ensures
        field_views(fields@) == server_fields_spec(*f),
{
    let mut fields: Vec<EmbedField> = Vec::new();
    assert(field_views(fields@) =~= Seq::<(Seq<char>, Seq<char>, bool)>::empty());
    add_field(&mut fields, "Guild ID", decimal_string(f.id), true);
    add_field(&mut fields, "Guild boosters:", decimal_string(f.boosters), false);
    add_field(&mut fields, "Owner id:", decimal_string(f.owner_id), true);
    add_field(&mut fields, "Creation date:", f.created.clone(), false);
    add_field(&mut fields, "Emoji count:", decimal_string(f.emojis as u64), true);
    add_field(&mut fields, "Sticker count:", decimal_string(f.stickers as u64), false);
    let mut members = decimal_string(f.members);
    push_str(&mut members, "/");
    push_decimal(&mut members, f.max_members);
    proof {
        reveal_strlit("/");
    }
    assert(members@ =~= decimal_digits(f.members as nat) + seq!['/'] + decimal_digits(
        f.max_members as nat,
    ));
    add_field(&mut fields, "Members count:", members, true);
    add_field(&mut fields, "Role count:", decimal_string(f.roles as u64), false);
    add_field(&mut fields, "Channels:", decimal_string(f.channels as u64), true);
    let size = if f.large {
        String::from_str("Large")
    } else {
        String::from_str("Not large")
    };
    add_field(&mut fields, "Server size:", size, true);
    assert(field_views(fields@) =~= server_fields_spec(*f));
    fields
}

/// The picture of the server information page: the banner, else the icon, else a
/// placeholder address.
pub fn server_thumbnail(id: u64, banner: Option<&str>, icon: Option<&str>) -> (url: String)
    ensures
        url@ == match banner {
            Some(b) => b@,
            None => match icon {
                Some(i) => "https://cdn.discordapp.com/icons/"@ + decimal_digits(id as nat)
                    + seq!['/'] + i@ + ".png"@,
                None => "https://..."@,
            },
        },
{
    match banner {
        Some(b) => String::from_str(b),
        None => match icon {
            Some(i) => {
                let mut s = String::new();
                push_str(&mut s, "https://cdn.discordapp.com/icons/");
                push_decimal(&mut s, id);
                push_str(&mut s, "/");
                push_str(&mut s, i);
                push_str(&mut s, ".png");
                proof {
                    reveal_strlit("/");
                }
                assert(s@ =~= "https://cdn.discordapp.com/icons/"@ + decimal_digits(id as nat)
                    + seq!['/'] + i@ + ".png"@);
                s
            },
            None => String::from_str("https://..."),
        },
    }
}

/// The description of the server information page: the guild's own, else a notice.
pub fn server_description(description: Option<&str>) -> (s: String)
    ensures
        s@ == match description {
            Some(d) => d@,
            None => "Unknown description"@,
        },
{
    match description {
        Some(d) => String::from_str(d),
        None => String::from_str("Unknown description"),
    }
}

/// The fields of the user information page: creation and join dates, a break, and whether
/// the account uses multi-factor authentication.
pub fn user_fields(created: &str, joined: &str, mfa: bool) -> (fields: Vec<EmbedField>)
    ensures
        field_views(fields@) == seq![
            ("Creation date:"@, created@, true),
            ("Joined date:"@, joined@, true),
            (Seq::<char>::empty(), Seq::<char>::empty(), false),
            ("Security:"@, if mfa {
                "MFA enabled"@
            } else {
                "MFA disabled"@
            }, false),
        ],
{
    let mut fields: Vec<EmbedField> = Vec::new();
    assert(field_views(fields@) =~= Seq::<(Seq<char>, Seq<char>, bool)>::empty());
    add_field(&mut fields, "Creation date:", String::from_str(created), true);
    add_field(&mut fields, "Joined date:", String::from_str(joined), true);
    let ghost before = field_views(fields@);
    fields.push(EmbedField { name: String::new(), value: String::new(), inline: false });
    assert(field_views(fields@) =~= before.push(
        (Seq::<char>::empty(), Seq::<char>::empty(), false),
    ));
    let security = if mfa {
        String::from_str("MFA enabled")
    } else {
        String::from_str("MFA disabled")
    };
    add_field(&mut fields, "Security:", security, false);
    assert(field_views(fields@) =~= seq![
        ("Creation date:"@, created@, true),
        ("Joined date:"@, joined@, true),
        (Seq::<char>::empty(), Seq::<char>::empty(), false),
        ("Security:"@, if mfa {
            "MFA enabled"@
        } else {
            "MFA disabled"@
        }, false),
    ]);
    fields
}

} // verus!
