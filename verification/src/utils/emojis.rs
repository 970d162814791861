//! The animated emojis that the react command offers.
use vstd::prelude::*;
use crate::utils::text::str_eq;

verus! {

/// A custom emoji: its identifier and its name.
#[derive(Debug, Clone, Copy, PartialEq, Eq)]
pub struct Emoji {
    pub id: &'static str,
    pub name: &'static str,
}

impl View for Emoji {
    type V = (Seq<char>, Seq<char>);

    open spec fn view(&self) -> (Seq<char>, Seq<char>) {
        (self.id@, self.name@)
    }
}

/// The emojis on offer, each with identifier and name, in the order they
/// are shown.
pub open spec fn emoji_table() -> Seq<(Seq<char>, Seq<char>)> {
    seq![
        ("1384171532955422730"@, "UmaruLaugh"@),
        ("1384173218058997881"@, "3147bluefire"@),
        ("1384173220743221408"@, "58346fire"@),
        ("1384173229584945232"@, "61652murderouscat"@),
        ("1384172648854065293"@, "AppJedi"@),
        ("1384852089490116698"@, "dr_senku_bubble"@),
        ("1384852101611393106"@, "jinwoo_sololeveling"@),
        ("1384852105407365150"@, "Pepe_King_Animated"@),
        ("1384852115322572881"@, "fading_crying_emoji"@),
        ("1384852122847281172"@, "Flud_Cat_Cry_Screech"@),
        ("1384852130350764142"@, "crown_yellow_gif"@),
        ("1384852136218595418"@, "mWhatOwO"@),
        ("1384852148793118791"@, "zerotwo_party"@),
        ("1384852152475713650"@, "no_anime5"@),
        ("1384852157232058470"@, "PaimonTriggerredPing"@),
        ("1384852168552743023"@, "cortesdemanga"@),
        ("1384852172776144937"@, "JBF_actingSusNotMeOwO"@),
        ("1384852180082888765"@, "CryingManAnimated"@),
        ("1384852196134223922"@, "saanimegirlshoot"@),
        ("1384852202803429477"@, "RaveWeebTC"@),
        ("1384852208746627112"@, "hanyaCheer"@),
    ]
}

/// The models of a run of emojis.
pub open spec fn emojis_model(table: Seq<Emoji>) -> Seq<(Seq<char>, Seq<char>)> {
    Seq::new(table.len(), |i: int| table[i]@)
}

/// The emojis on offer.
pub fn emojis() -> (table: Vec<Emoji>)
    ensures
        emojis_model(table@) == emoji_table(),
{
    let mut table: Vec<Emoji> = Vec::new();
    table.push(Emoji { id: "1384171532955422730", name: "UmaruLaugh" });
    table.push(Emoji { id: "1384173218058997881", name: "3147bluefire" });
    table.push(Emoji { id: "1384173220743221408", name: "58346fire" });
    table.push(Emoji { id: "1384173229584945232", name: "61652murderouscat" });
    table.push(Emoji { id: "1384172648854065293", name: "AppJedi" });
    table.push(Emoji { id: "1384852089490116698", name: "dr_senku_bubble" });
    table.push(Emoji { id: "1384852101611393106", name: "jinwoo_sololeveling" });
    table.push(Emoji { id: "1384852105407365150", name: "Pepe_King_Animated" });
    table.push(Emoji { id: "1384852115322572881", name: "fading_crying_emoji" });
    table.push(Emoji { id: "1384852122847281172", name: "Flud_Cat_Cry_Screech" });
    table.push(Emoji { id: "1384852130350764142", name: "crown_yellow_gif" });
    table.push(Emoji { id: "1384852136218595418", name: "mWhatOwO" });
    table.push(Emoji { id: "1384852148793118791", name: "zerotwo_party" });
    table.push(Emoji { id: "1384852152475713650", name: "no_anime5" });
    table.push(Emoji { id: "1384852157232058470", name: "PaimonTriggerredPing" });
    table.push(Emoji { id: "1384852168552743023", name: "cortesdemanga" });
    table.push(Emoji { id: "1384852172776144937", name: "JBF_actingSusNotMeOwO" });
    table.push(Emoji { id: "1384852180082888765", name: "CryingManAnimated" });
    table.push(Emoji { id: "1384852196134223922", name: "saanimegirlshoot" });
    table.push(Emoji { id: "1384852202803429477", name: "RaveWeebTC" });
    table.push(Emoji { id: "1384852208746627112", name: "hanyaCheer" });
    assert(emojis_model(table@) =~= emoji_table());
    table
}

/// The first emoji of `table` that has the identifier `id`.
pub open spec fn emoji_with_id(table: Seq<(Seq<char>, Seq<char>)>, id: Seq<char>) -> Option<
    (Seq<char>, Seq<char>),
>
    decreases table.len(),
{
    if table.len() == 0 {
        None
    } else if table[0].0 == id {
        Some(table[0])
    } else {
        emoji_with_id(table.drop_first(), id)
    }
}

/// Looks an emoji up by its identifier.
pub fn get_emoji_by_id(id: &str) -> (found: Option<Emoji>)
    ensures
        match found {
            Some(emoji) => emoji_with_id(emoji_table(), id@) == Some(emoji@),
            None => emoji_with_id(emoji_table(), id@) is None,
        },
{
    let table = emojis();
    let ghost model = emoji_table();
    assert(model.skip(0) =~= model);
    let mut i: usize = 0;
    while i < table.len()
        invariant
            i <= table.len(),
            model == emoji_table(),
            emojis_model(table@) == model,
            emoji_with_id(model, id@) == emoji_with_id(model.skip(i as int), id@),
        decreases table.len() - i,
    {
        let ghost rest = model.skip(i as int);
        proof {
            assert(rest[0] == model[i as int]);
            assert(model[i as int] == emojis_model(table@)[i as int]);
            assert(rest.drop_first() =~= model.skip(i + 1));
        }
        if str_eq(table[i].id, id) {
            return Some(table[i]);
        }
        i += 1;
    }
    None
}

/// The number of emojis on one page.
pub const EMOJIS_PER_PAGE: usize = 20;

/// The emojis on a page of `table`: twenty to a page, pages counted from
/// zero; none on a page past the last one.
pub open spec fn page_of(table: Seq<(Seq<char>, Seq<char>)>, page: int) -> Seq<
    (Seq<char>, Seq<char>),
> {
    if page * EMOJIS_PER_PAGE >= table.len() {
        Seq::empty()
    } else if (page + 1) * EMOJIS_PER_PAGE >= table.len() {
        table.skip(page * EMOJIS_PER_PAGE)
    } else {
        table.subrange(page * EMOJIS_PER_PAGE, (page + 1) * EMOJIS_PER_PAGE)
    }
}

/// The emojis on a page.
pub fn emoji_page(page: usize) -> (shown: Vec<Emoji>)
    ensures
        emojis_model(shown@) == page_of(emoji_table(), page as int),
{
    let table = emojis();
    let mut shown: Vec<Emoji> = Vec::new();
    assert(emojis_model(table@).len() == table.len());
    if page >= table.len() {
        assert(page * EMOJIS_PER_PAGE >= table.len()) by (nonlinear_arith)
            requires
                page >= table.len(),
        ;
        assert(emojis_model(shown@) =~= Seq::empty());
        return shown;
    }
    assert(page * 20 <= table.len() * 20) by (nonlinear_arith)
        requires
            page < table.len(),
    ;
    assert(table.len() == 21);
    let start = page * EMOJIS_PER_PAGE;
    if start >= table.len() {
        assert(emojis_model(shown@) =~= Seq::empty());
        return shown;
    }
    let end = if table.len() - start <= EMOJIS_PER_PAGE {
        table.len()
    } else {
        start + EMOJIS_PER_PAGE
    };
    let mut i: usize = start;
    while i < end
        invariant
            start <= i <= end <= table.len(),
            shown@.len() == i - start,
            forall|k: int| 0 <= k < i - start ==> shown@[k] == table@[start + k],
        decreases end - i,
    {
        shown.push(table[i]);
        i += 1;
    }
    assert(emojis_model(shown@) =~= emojis_model(table@).subrange(start as int, end as int));
    assert(emojis_model(table@).skip(start as int) =~= emojis_model(table@).subrange(
        start as int,
        table.len() as int,
    ));
    shown
}

/// The number of pages that the emojis fill.
pub fn emoji_page_count() -> (pages: usize)
    ensures
        pages == (emoji_table().len() + EMOJIS_PER_PAGE - 1) / (EMOJIS_PER_PAGE as int),
{
    let table = emojis();
    assert(emojis_model(table@).len() == table.len());
    assert(table.len() == 21);
    (table.len() + EMOJIS_PER_PAGE - 1) / EMOJIS_PER_PAGE
}

} // verus!
