//! Types shared by the save files: model ids, cards, relics, potions.

use vstd::prelude::*;
use vstd::std_specs::cmp::PartialEqSpec;

verus! {

/// How many times `c` occurs in `s`.
pub open spec fn count_char(s: Seq<char>, c: char) -> nat
    decreases s.len(),
{
    if s.len() == 0 {
        0
    } else {
        count_char(s.drop_last(), c) + if s.last() == c {
            1nat
        } else {
            0nat
        }
    }
}

/// `s` is `category`, a dot, then `entry`, and neither part holds a dot.
pub open spec fn is_model_id_text(s: Seq<char>, category: Seq<char>, entry: Seq<char>) -> bool {
    &&& s == category + seq!['.'] + entry
    &&& !category.contains('.')
    &&& !entry.contains('.')
}

pub proof fn lemma_count_char_concat(a: Seq<char>, b: Seq<char>, c: char)
    ensures
        count_char(a + b, c) == count_char(a, c) + count_char(b, c),
    decreases b.len(),
{
    if b.len() == 0 {
        assert(a + b =~= a);
    } else {
        lemma_count_char_concat(a, b.drop_last(), c);
        assert((a + b).drop_last() =~= a + b.drop_last());
    }
}

pub proof fn lemma_count_char_zero(s: Seq<char>, c: char)
    ensures
        count_char(s, c) == 0 <==> !s.contains(c),
    decreases s.len(),
{
    if s.len() > 0 {
        lemma_count_char_zero(s.drop_last(), c);
        if s.drop_last().contains(c) {
            let j = choose|j: int| 0 <= j < s.drop_last().len() && s.drop_last()[j] == c;
            assert(s[j] == c);
        }
        if s.contains(c) && s.last() != c {
            let j = choose|j: int| 0 <= j < s.len() && s[j] == c;
            assert(s.drop_last()[j] == c);
        }
    }
}

/// A text splits into a model id in at most one way.
pub proof fn lemma_model_id_text_unique(
    s: Seq<char>,
    c1: Seq<char>,
    e1: Seq<char>,
    c2: Seq<char>,
    e2: Seq<char>,
)
    requires
        is_model_id_text(s, c1, e1),
        is_model_id_text(s, c2, e2),
    ensures
        c1 == c2,
        e1 == e2,
{
    if c1.len() < c2.len() {
        assert(s[c1.len() as int] == '.');
        assert(c2[c1.len() as int] == '.');
    } else if c2.len() < c1.len() {
        assert(s[c2.len() as int] == '.');
        assert(c1[c2.len() as int] == '.');
    }
    assert(c1 =~= s.take(c1.len() as int));
    assert(c2 =~= s.take(c2.len() as int));
    assert(e1 =~= s.skip(c1.len() as int + 1));
    assert(e2 =~= s.skip(c2.len() as int + 1));
}

/// The id of a game model, written `CATEGORY.ENTRY`.
#[derive(Debug, Clone, Eq, PartialOrd, Ord)]
pub struct ModelId {
    pub category: String,
    pub entry: String,
}

impl PartialEq for ModelId {
    fn eq(&self, other: &Self) -> (r: bool) {
        self.category == other.category && self.entry == other.entry
    }
}

impl vstd::std_specs::cmp::PartialEqSpecImpl for ModelId {
    open spec fn obeys_eq_spec() -> bool {
        true
    }

    open spec fn eq_spec(&self, other: &Self) -> bool {
        self.category@ == other.category@ && self.entry@ == other.entry@
    }
}

/// The text of a model id: its category, a dot, its entry.
pub open spec fn model_id_text(category: Seq<char>, entry: Seq<char>) -> Seq<char> {
    category + seq!['.'] + entry
}

impl Default for ModelId {
    fn default() -> (r: Self)
        ensures
            r.category@ == "NONE"@,
            r.entry@ == "NONE"@,
    {
        ModelId { category: "NONE".to_owned(), entry: "NONE".to_owned() }
    }
}

impl ModelId {
    /// The text of the id, `category.entry`.
    pub fn to_id_string(&self) -> (r: String)
        ensures
            r@ == model_id_text(self.category@, self.entry@),
    {
        let mut s = self.category.clone();
        proof {
            reveal_strlit(".");
        }
        s.append(".");
        s.append(self.entry.as_str());
        s
    }

    /// The id written as `s`, which must hold exactly one dot.
    pub fn parse(s: &str) -> (r: Result<ModelId, &'static str>)
        ensures
            match r {
                Ok(m) => is_model_id_text(s@, m.category@, m.entry@),
                Err(msg) => msg@ == "model id must contain exactly one dot"@ && forall|
                    c: Seq<char>,
                    e: Seq<char>,
                | !is_model_id_text(s@, c, e),
            },
    {
        let n = s.unicode_len();
        let mut dots: usize = 0;
        let mut first: usize = 0;
        let mut i: usize = 0;
        while i < n
            invariant
                n == s@.len(),
                i <= n,
                dots == count_char(s@.take(i as int), '.'),
                dots <= i,
                dots == 0 ==> first == 0,
                dots > 0 ==> first < i && s@[first as int] == '.' && count_char(
                    s@.take(first as int),
                    '.',
                ) == 0,
            decreases n - i,
        {
            let c = s.get_char(i);
            assert(s@.take(i + 1).drop_last() =~= s@.take(i as int));
            if c == '.' {
                if dots == 0 {
                    first = i;
                }
                dots += 1;
            }
            i += 1;
        }
        assert(s@.take(n as int) =~= s@);
        if dots != 1 {
            proof {
                reveal_strlit("model id must contain exactly one dot");
                assert forall|c: Seq<char>, e: Seq<char>| !is_model_id_text(s@, c, e) by {
                    if is_model_id_text(s@, c, e) {
                        lemma_count_char_concat(c + seq!['.'], e, '.');
                        lemma_count_char_concat(c, seq!['.'], '.');
                        lemma_count_char_zero(c, '.');
                        lemma_count_char_zero(e, '.');
                        assert(seq!['.'].drop_last() =~= Seq::<char>::empty());
                        assert(count_char(Seq::<char>::empty(), '.') == 0);
                        assert(count_char(seq!['.'], '.') == 1);
                    }
                }
            }
            return Err("model id must contain exactly one dot");
        }
        let category = String::from_str(s.substring_char(0, first));
        let entry = String::from_str(s.substring_char(first + 1, n));
        proof {
            let cs = s@.take(first as int);
            let es = s@.skip(first + 1);
            assert(s@ =~= cs + seq!['.'] + es);
            lemma_count_char_zero(cs, '.');
            lemma_count_char_concat(cs + seq!['.'], es, '.');
            lemma_count_char_concat(cs, seq!['.'], '.');
            assert(seq!['.'].drop_last() =~= Seq::<char>::empty());
            assert(count_char(Seq::<char>::empty(), '.') == 0);
            assert(count_char(seq!['.'], '.') == 1);
            lemma_count_char_zero(es, '.');
            assert(category@ =~= cs);
            assert(entry@ =~= es);
        }
        Ok(ModelId { category, entry })
    }
}

impl std::str::FromStr for ModelId {
    type Err = &'static str;

    fn from_str(s: &str) -> (r: Result<Self, Self::Err>)
        ensures
            match r {
                Ok(m) => is_model_id_text(s@, m.category@, m.entry@),
                Err(msg) => msg@ == "model id must contain exactly one dot"@ && forall|
                    c: Seq<char>,
                    e: Seq<char>,
                | !is_model_id_text(s@, c, e),
            },
    {
        ModelId::parse(s)
    }
}

/// A model id written as text reads back as the same id exactly when neither
/// its category nor its entry holds a dot; and a text that reads as an id is
/// that id written out.
pub proof fn law_model_id_round_trip(category: Seq<char>, entry: Seq<char>)
    ensures
        (!category.contains('.') && !entry.contains('.')) <==> (exists|c: Seq<char>, e: Seq<char>|
            is_model_id_text(model_id_text(category, entry), c, e)),
        !category.contains('.') && !entry.contains('.') ==> forall|c: Seq<char>, e: Seq<char>|
            is_model_id_text(model_id_text(category, entry), c, e) ==> c == category && e
                == entry,
        forall|s: Seq<char>, c: Seq<char>, e: Seq<char>|
            is_model_id_text(s, c, e) ==> model_id_text(c, e) == s,
{
    let s = model_id_text(category, entry);
    if !category.contains('.') && !entry.contains('.') {
        assert(is_model_id_text(s, category, entry));
        assert forall|c: Seq<char>, e: Seq<char>| is_model_id_text(s, c, e) implies c == category
            && e == entry by {
            lemma_model_id_text_unique(s, c, e, category, entry);
        }
    }
    if exists|c: Seq<char>, e: Seq<char>| is_model_id_text(s, c, e) {
        let (c, e) = choose|c: Seq<char>, e: Seq<char>| is_model_id_text(s, c, e);
        lemma_count_char_concat(c + seq!['.'], e, '.');
        lemma_count_char_concat(c, seq!['.'], '.');
        lemma_count_char_concat(category + seq!['.'], entry, '.');
        lemma_count_char_concat(category, seq!['.'], '.');
        assert(seq!['.'].drop_last() =~= Seq::<char>::empty());
        assert(count_char(Seq::<char>::empty(), '.') == 0);
        assert(count_char(seq!['.'], '.') == 1);
        lemma_count_char_zero(c, '.');
        lemma_count_char_zero(e, '.');
        lemma_count_char_zero(category, '.');
        lemma_count_char_zero(entry, '.');
    }
}

/// A localized text: the table it comes from and its key there.
#[derive(Debug, Clone, PartialEq, Eq)]
pub struct LocString {
    pub table: String,
    pub key: String,
}

/// Named values attached to a model.
#[derive(Debug, Eq)]
pub struct SavedProperties {
    pub ints: Vec<SavedProperty<i32>>,
    pub bools: Vec<SavedProperty<bool>>,
    pub strings: Vec<SavedProperty<String>>,
    pub int_arrays: Vec<SavedProperty<Vec<i32>>>,
    pub model_ids: Vec<SavedProperty<Vec<ModelId>>>,
    pub cards: Vec<SavedProperty<Card>>,
    pub card_arrays: Vec<SavedProperty<Vec<Card>>>,
}

impl SavedProperties {
    /// Properties with no values at all.
    pub fn empty() -> (r: Self)
        ensures
            r.ints@.len() == 0,
            r.bools@.len() == 0,
            r.strings@.len() == 0,
            r.int_arrays@.len() == 0,
            r.model_ids@.len() == 0,
            r.cards@.len() == 0,
            r.card_arrays@.len() == 0,
    {
        SavedProperties {
            ints: Vec::new(),
            bools: Vec::new(),
            strings: Vec::new(),
            int_arrays: Vec::new(),
            model_ids: Vec::new(),
            cards: Vec::new(),
            card_arrays: Vec::new(),
        }
    }

    /// Whether no property is set (the properties equal their default).
    pub fn is_empty(&self) -> (r: bool)
        ensures
            r == (self.ints@.len() == 0 && self.bools@.len() == 0 && self.strings@.len() == 0
                && self.int_arrays@.len() == 0 && self.model_ids@.len() == 0 && self.cards@.len()
                == 0 && self.card_arrays@.len() == 0),
    {
        self.ints.len() == 0 && self.bools.len() == 0 && self.strings.len() == 0
            && self.int_arrays.len() == 0 && self.model_ids.len() == 0 && self.cards.len() == 0
            && self.card_arrays.len() == 0
    }
}

/// One named value.
#[derive(Debug, Clone, PartialEq, Eq)]
pub struct SavedProperty<T> {
    pub name: String,
    pub value: T,
}

#[derive(Debug, Clone, PartialEq, Eq)]
pub struct Modifier {
    pub id: ModelId,
    pub props: SavedProperties,
}

#[derive(Debug, Clone, PartialEq, Eq)]
pub struct Enchantment {
    pub id: ModelId,
    pub amount: i32,
    pub props: SavedProperties,
}

#[derive(Debug, PartialEq, Eq)]
pub struct Card {
    pub id: ModelId,
    pub upgrades: i32,
    pub enchantment: Option<Enchantment>,
    pub props: SavedProperties,
    pub floor_added: Option<i32>,
}

#[derive(Debug, Clone, PartialEq, Eq)]
pub struct Potion {
    pub id: ModelId,
    pub slot: i32,
}

#[derive(Debug, Clone, PartialEq, Eq)]
pub struct Relic {
    pub id: ModelId,
    pub props: SavedProperties,
    pub floor_added: Option<i32>,
}

#[derive(Debug, Clone, PartialEq, Eq)]
pub struct Badge {
    pub id: ModelId,
    pub rarity: BadgeRarity,
}

#[derive(Debug, Clone, Copy, PartialEq, Eq, Structural)]
pub enum BadgeRarity {
    /// Written `none` in save files.
    NoRarity,
    Bronze,
    Silver,
    Gold,
}

/// Whether `a` and `b` hold the same properties: the same names with the same
/// values, in the same order, cards compared by `same_card`.
pub open spec fn same_props(a: SavedProperties, b: SavedProperties) -> bool
    decreases a,
{
    &&& a.ints@ == b.ints@
    &&& a.bools@ == b.bools@
    &&& a.strings@ == b.strings@
    &&& a.int_arrays@.len() == b.int_arrays@.len()
    &&& forall|i: int|
        #![trigger a.int_arrays@[i]]
        0 <= i < a.int_arrays@.len() ==> a.int_arrays@[i].name == b.int_arrays@[i].name
            && a.int_arrays@[i].value@ == b.int_arrays@[i].value@
    &&& a.model_ids@.len() == b.model_ids@.len()
    &&& forall|i: int|
        #![trigger a.model_ids@[i]]
        0 <= i < a.model_ids@.len() ==> a.model_ids@[i].name == b.model_ids@[i].name
            && a.model_ids@[i].value@ == b.model_ids@[i].value@
    &&& a.cards@.len() == b.cards@.len()
    &&& forall|i: int|
        #![trigger a.cards@[i]]
        0 <= i < a.cards@.len() ==> a.cards@[i].name == b.cards@[i].name && same_card(
            a.cards@[i].value,
            b.cards@[i].value,
        )
    &&& a.card_arrays@.len() == b.card_arrays@.len()
    &&& forall|i: int|
        #![trigger a.card_arrays@[i]]
        0 <= i < a.card_arrays@.len() ==> a.card_arrays@[i].name == b.card_arrays@[i].name
            && same_cards(a.card_arrays@[i].value@, b.card_arrays@[i].value@)
}

/// Whether `a` and `b` are the same cards, one by one.
pub open spec fn same_cards(a: Seq<Card>, b: Seq<Card>) -> bool
    decreases a,
{
    &&& a.len() == b.len()
    &&& forall|j: int| #![trigger a[j]] 0 <= j < a.len() ==> same_card(a[j], b[j])
}

/// Whether `a` and `b` are the same card: the same id, upgrades, enchantment,
/// properties and floor.
pub open spec fn same_card(a: Card, b: Card) -> bool
    decreases a,
{
    &&& a.id == b.id
    &&& a.upgrades == b.upgrades
    &&& a.floor_added == b.floor_added
    &&& match a.enchantment {
        Some(x) => b.enchantment matches Some(y) && x.id == y.id && x.amount == y.amount
            && same_props(x.props, y.props),
        None => b.enchantment is None,
    }
    &&& same_props(a.props, b.props)
}

fn clone_model_id(m: &ModelId) -> (r: ModelId)
    ensures
        r == *m,
{
    ModelId { category: m.category.clone(), entry: m.entry.clone() }
}

fn clone_model_ids(v: &Vec<ModelId>) -> (r: Vec<ModelId>)
    ensures
        r@ == v@,
{
    let mut r: Vec<ModelId> = Vec::new();
    let mut i: usize = 0;
    while i < v.len()
        invariant
            i <= v@.len(),
            r@ =~= v@.take(i as int),
        decreases v.len() - i,
    {
        r.push(clone_model_id(&v[i]));
        i += 1;
        assert(r@ =~= v@.take(i as int));
    }
    assert(v@.take(v@.len() as int) =~= v@);
    r
}

fn clone_cards(v: &Vec<Card>) -> (r: Vec<Card>)
    ensures
        same_cards(v@, r@),
    decreases v, 0int,
{
    let mut r: Vec<Card> = Vec::new();
    let mut i: usize = 0;
    while i < v.len()
        invariant
            i <= v@.len(),
            r@.len() == i,
            forall|j: int| 0 <= j < i ==> #[trigger] same_card(v@[j], r@[j]),
        decreases v.len() - i,
    {
        assert(decreases_to!(v => v@[i as int]));
        r.push(clone_card(&v[i]));
        i += 1;
    }
    assert forall|j: int| 0 <= j < v@.len() implies same_card(v@[j], r@[j]) by {}
    assert(same_cards(v@, r@));
    r
}

fn clone_card(c: &Card) -> (r: Card)
    ensures
        same_card(*c, r),
    decreases c, 1int,
{
    let enchantment = match &c.enchantment {
        Some(e) => Some(
            Enchantment { id: clone_model_id(&e.id), amount: e.amount, props: clone_properties(&e.props) },
        ),
        None => None,
    };
    Card {
        id: clone_model_id(&c.id),
        upgrades: c.upgrades,
        enchantment,
        props: clone_properties(&c.props),
        floor_added: c.floor_added,
    }
}

fn clone_plain_props<T: Copy>(v: &Vec<SavedProperty<T>>) -> (r: Vec<SavedProperty<T>>)
    ensures
        r@ == v@,
{
    let mut r: Vec<SavedProperty<T>> = Vec::new();
    let mut i: usize = 0;
    while i < v.len()
        invariant
            i <= v@.len(),
            r@ =~= v@.take(i as int),
        decreases v.len() - i,
    {
        let item = &v[i];
        let value: T = item.value;
        r.push(SavedProperty { name: item.name.clone(), value });
        i += 1;
        assert(r@ =~= v@.take(i as int));
    }
    assert(v@.take(v@.len() as int) =~= v@);
    r
}

fn clone_string_props(v: &Vec<SavedProperty<String>>) -> (r: Vec<SavedProperty<String>>)
    ensures
        r@ == v@,
{
    let mut r: Vec<SavedProperty<String>> = Vec::new();
    let mut i: usize = 0;
    while i < v.len()
        invariant
            i <= v@.len(),
            r@ =~= v@.take(i as int),
        decreases v.len() - i,
    {
        let item = &v[i];
        r.push(SavedProperty { name: item.name.clone(), value: item.value.clone() });
        i += 1;
        assert(r@ =~= v@.take(i as int));
    }
    assert(v@.take(v@.len() as int) =~= v@);
    r
}

fn clone_int_array_props(v: &Vec<SavedProperty<Vec<i32>>>) -> (r: Vec<SavedProperty<Vec<i32>>>)
    ensures
        r@.len() == v@.len(),
        forall|i: int|
            #![trigger v@[i]]
            0 <= i < v@.len() ==> r@[i].name == v@[i].name && r@[i].value@ == v@[i].value@,
{
    let mut r: Vec<SavedProperty<Vec<i32>>> = Vec::new();
    let mut i: usize = 0;
    while i < v.len()
        invariant
            i <= v@.len(),
            r@.len() == i,
            forall|j: int|
                #![trigger v@[j]]
                0 <= j < i ==> r@[j].name == v@[j].name && r@[j].value@ == v@[j].value@,
        decreases v.len() - i,
    {
        let item = &v[i];
        let value = item.value.clone();
        assert(value@ =~= item.value@);
        r.push(SavedProperty { name: item.name.clone(), value });
        i += 1;
    }
    r
}

fn clone_model_id_props(v: &Vec<SavedProperty<Vec<ModelId>>>) -> (r: Vec<
    SavedProperty<Vec<ModelId>>,
>)
    ensures
        r@.len() == v@.len(),
        forall|i: int|
            #![trigger v@[i]]
            0 <= i < v@.len() ==> r@[i].name == v@[i].name && r@[i].value@ == v@[i].value@,
{
    let mut r: Vec<SavedProperty<Vec<ModelId>>> = Vec::new();
    let mut i: usize = 0;
    while i < v.len()
        invariant
            i <= v@.len(),
            r@.len() == i,
            forall|j: int|
                #![trigger v@[j]]
                0 <= j < i ==> r@[j].name == v@[j].name && r@[j].value@ == v@[j].value@,
        decreases v.len() - i,
    {
        let item = &v[i];
        r.push(SavedProperty { name: item.name.clone(), value: clone_model_ids(&item.value) });
        i += 1;
    }
    r
}

fn clone_properties(p: &SavedProperties) -> (r: SavedProperties)
    ensures
        same_props(*p, r),
    decreases p, 2int,
{
    let mut cards: Vec<SavedProperty<Card>> = Vec::new();
    let mut i: usize = 0;
    while i < p.cards.len()
        invariant
            i <= p.cards@.len(),
            cards@.len() == i,
            forall|j: int|
                #![trigger p.cards@[j]]
                0 <= j < i ==> p.cards@[j].name == cards@[j].name && same_card(
                    p.cards@[j].value,
                    cards@[j].value,
                ),
        decreases p.cards.len() - i,
    {
        assert(decreases_to!(p => p.cards@[i as int].value));
        let item = &p.cards[i];
        cards.push(SavedProperty { name: item.name.clone(), value: clone_card(&item.value) });
        i += 1;
    }
    let mut card_arrays: Vec<SavedProperty<Vec<Card>>> = Vec::new();
    let mut j: usize = 0;
    while j < p.card_arrays.len()
        invariant
            j <= p.card_arrays@.len(),
            card_arrays@.len() == j,
            forall|k: int|
                #![trigger p.card_arrays@[k]]
                0 <= k < j ==> p.card_arrays@[k].name == card_arrays@[k].name && same_cards(
                    p.card_arrays@[k].value@,
                    card_arrays@[k].value@,
                ),
        decreases p.card_arrays.len() - j,
    {
        assert(decreases_to!(p => p.card_arrays@[j as int].value));
        let item = &p.card_arrays[j];
        card_arrays.push(SavedProperty { name: item.name.clone(), value: clone_cards(&item.value) });
        j += 1;
    }
    let r = SavedProperties {
        ints: clone_plain_props(&p.ints),
        bools: clone_plain_props(&p.bools),
        strings: clone_string_props(&p.strings),
        int_arrays: clone_int_array_props(&p.int_arrays),
        model_ids: clone_model_id_props(&p.model_ids),
        cards,
        card_arrays,
    };
    assert(same_props(*p, r));
    r
}

impl Clone for SavedProperties {
    fn clone(&self) -> (r: Self)
        ensures
            same_props(*self, r),
    {
        clone_properties(self)
    }
}

impl Clone for Card {
    fn clone(&self) -> (r: Self)
        ensures
            same_card(*self, r),
    {
        clone_card(self)
    }
}

impl Default for SavedProperties {
    fn default() -> (r: Self)
        ensures
            r.ints@.len() == 0,
            r.bools@.len() == 0,
            r.strings@.len() == 0,
            r.int_arrays@.len() == 0,
            r.model_ids@.len() == 0,
            r.cards@.len() == 0,
            r.card_arrays@.len() == 0,
    {
        SavedProperties::empty()
    }
}

/// Whether two model ids have the same text.
pub open spec fn id_match(a: ModelId, b: ModelId) -> bool {
    a.category@ == b.category@ && a.entry@ == b.entry@
}

/// Whether two lists of model ids hold the same ids.
pub open spec fn ids_match(a: Seq<ModelId>, b: Seq<ModelId>) -> bool {
    a.len() == b.len() && forall|j: int| 0 <= j < a.len() ==> #[trigger] id_match(a[j], b[j])
}

/// Whether `a` and `b` compare equal: the same names with the same values, in
/// the same order, texts compared by their characters and cards by
/// `card_match`.
pub open spec fn props_match(a: SavedProperties, b: SavedProperties) -> bool
    decreases a,
{
    &&& a.ints@.len() == b.ints@.len()
    &&& forall|i: int|
        #![trigger a.ints@[i]]
        0 <= i < a.ints@.len() ==> a.ints@[i].name@ == b.ints@[i].name@ && a.ints@[i].value
            == b.ints@[i].value
    &&& a.bools@.len() == b.bools@.len()
    &&& forall|i: int|
        #![trigger a.bools@[i]]
        0 <= i < a.bools@.len() ==> a.bools@[i].name@ == b.bools@[i].name@ && a.bools@[i].value
            == b.bools@[i].value
    &&& a.strings@.len() == b.strings@.len()
    &&& forall|i: int|
        #![trigger a.strings@[i]]
        0 <= i < a.strings@.len() ==> a.strings@[i].name@ == b.strings@[i].name@
            && a.strings@[i].value@ == b.strings@[i].value@
    &&& a.int_arrays@.len() == b.int_arrays@.len()
    &&& forall|i: int|
        #![trigger a.int_arrays@[i]]
        0 <= i < a.int_arrays@.len() ==> a.int_arrays@[i].name@ == b.int_arrays@[i].name@
            && a.int_arrays@[i].value@ == b.int_arrays@[i].value@
    &&& a.model_ids@.len() == b.model_ids@.len()
    &&& forall|i: int|
        #![trigger a.model_ids@[i]]
        0 <= i < a.model_ids@.len() ==> a.model_ids@[i].name@ == b.model_ids@[i].name@
            && ids_match(a.model_ids@[i].value@, b.model_ids@[i].value@)
    &&& a.cards@.len() == b.cards@.len()
    &&& forall|i: int|
        #![trigger a.cards@[i]]
        0 <= i < a.cards@.len() ==> a.cards@[i].name@ == b.cards@[i].name@ && card_match(
            a.cards@[i].value,
            b.cards@[i].value,
        )
    &&& a.card_arrays@.len() == b.card_arrays@.len()
    &&& forall|i: int|
        #![trigger a.card_arrays@[i]]
        0 <= i < a.card_arrays@.len() ==> a.card_arrays@[i].name@ == b.card_arrays@[i].name@
            && cards_match(a.card_arrays@[i].value@, b.card_arrays@[i].value@)
}

/// Whether two lists of cards match card by card.
pub open spec fn cards_match(a: Seq<Card>, b: Seq<Card>) -> bool
    decreases a,
{
    &&& a.len() == b.len()
    &&& forall|j: int| #![trigger a[j]] 0 <= j < a.len() ==> card_match(a[j], b[j])
}

/// Whether two cards compare equal: the same id, upgrades, floor,
/// enchantment and properties.
pub open spec fn card_match(a: Card, b: Card) -> bool
    decreases a,
{
    &&& id_match(a.id, b.id)
    &&& a.upgrades == b.upgrades
    &&& a.floor_added == b.floor_added
    &&& match a.enchantment {
        Some(x) => b.enchantment matches Some(y) && id_match(x.id, y.id) && x.amount == y.amount
            && props_match(x.props, y.props),
        None => b.enchantment is None,
    }
    &&& props_match(a.props, b.props)
}

fn ids_equal(a: &Vec<ModelId>, b: &Vec<ModelId>) -> (r: bool)
    ensures
        r == ids_match(a@, b@),
{
    if a.len() != b.len() {
        return false;
    }
    let mut i: usize = 0;
    while i < a.len()
        invariant
            a@.len() == b@.len(),
            i <= a@.len(),
            forall|j: int| 0 <= j < i ==> #[trigger] id_match(a@[j], b@[j]),
        decreases a.len() - i,
    {
        if !(a[i] == b[i]) {
            assert(!id_match(a@[i as int], b@[i as int]));
            return false;
        }
        i += 1;
    }
    true
}

fn cards_equal(a: &Vec<Card>, b: &Vec<Card>) -> (r: bool)
    ensures
        r == cards_match(a@, b@),
    decreases a, 0int,
{
    if a.len() != b.len() {
        return false;
    }
    let mut i: usize = 0;
    while i < a.len()
        invariant
            a@.len() == b@.len(),
            i <= a@.len(),
            forall|j: int| 0 <= j < i ==> #[trigger] card_match(a@[j], b@[j]),
        decreases a.len() - i,
    {
        assert(decreases_to!(a => a@[i as int]));
        if !card_equal(&a[i], &b[i]) {
            return false;
        }
        i += 1;
    }
    assert forall|j: int| 0 <= j < a@.len() implies card_match(a@[j], b@[j]) by {}
    true
}

fn card_equal(a: &Card, b: &Card) -> (r: bool)
    ensures
        r == card_match(*a, *b),
    decreases a, 1int,
{
    if !(a.id == b.id) || a.upgrades != b.upgrades || a.floor_added != b.floor_added {
        return false;
    }
    let enchantments = match (&a.enchantment, &b.enchantment) {
        (Some(x), Some(y)) => x.id == y.id && x.amount == y.amount && props_equal(&x.props, &y.props),
        (None, None) => true,
        _ => false,
    };
    if !enchantments {
        return false;
    }
    props_equal(&a.props, &b.props)
}

fn props_equal(a: &SavedProperties, b: &SavedProperties) -> (r: bool)
    ensures
        r == props_match(*a, *b),
    decreases a, 2int,
{
    if a.ints.len() != b.ints.len() || a.bools.len() != b.bools.len() || a.strings.len()
        != b.strings.len() || a.int_arrays.len() != b.int_arrays.len() || a.model_ids.len()
        != b.model_ids.len() || a.cards.len() != b.cards.len() || a.card_arrays.len()
        != b.card_arrays.len() {
        return false;
    }
    let mut i: usize = 0;
    while i < a.ints.len()
        invariant
            a.ints@.len() == b.ints@.len(),
            i <= a.ints@.len(),
            forall|j: int|
                #![trigger a.ints@[j]]
                0 <= j < i ==> a.ints@[j].name@ == b.ints@[j].name@ && a.ints@[j].value
                    == b.ints@[j].value,
        decreases a.ints.len() - i,
    {
        if !(a.ints[i].name == b.ints[i].name) || a.ints[i].value != b.ints[i].value {
            return false;
        }
        i += 1;
    }
    let mut i: usize = 0;
    while i < a.bools.len()
        invariant
            a.bools@.len() == b.bools@.len(),
            i <= a.bools@.len(),
            forall|j: int|
                #![trigger a.bools@[j]]
                0 <= j < i ==> a.bools@[j].name@ == b.bools@[j].name@ && a.bools@[j].value
                    == b.bools@[j].value,
        decreases a.bools.len() - i,
    {
        if !(a.bools[i].name == b.bools[i].name) || a.bools[i].value != b.bools[i].value {
            return false;
        }
        i += 1;
    }
    let mut i: usize = 0;
    while i < a.strings.len()
        invariant
            a.strings@.len() == b.strings@.len(),
            i <= a.strings@.len(),
            forall|j: int|
                #![trigger a.strings@[j]]
                0 <= j < i ==> a.strings@[j].name@ == b.strings@[j].name@ && a.strings@[j].value@
                    == b.strings@[j].value@,
        decreases a.strings.len() - i,
    {
        if !(a.strings[i].name == b.strings[i].name) || !(a.strings[i].value == b.strings[i].value) {
            return false;
        }
        i += 1;
    }
    let mut i: usize = 0;
    while i < a.int_arrays.len()
        invariant
            a.int_arrays@.len() == b.int_arrays@.len(),
            i <= a.int_arrays@.len(),
            forall|j: int|
                #![trigger a.int_arrays@[j]]
                0 <= j < i ==> a.int_arrays@[j].name@ == b.int_arrays@[j].name@
                    && a.int_arrays@[j].value@ == b.int_arrays@[j].value@,
        decreases a.int_arrays.len() - i,
    {
        if !(a.int_arrays[i].name == b.int_arrays[i].name) || !ints_equal(
            &a.int_arrays[i].value,
            &b.int_arrays[i].value,
        ) {
            return false;
        }
        i += 1;
    }
    let mut i: usize = 0;
    while i < a.model_ids.len()
        invariant
            a.model_ids@.len() == b.model_ids@.len(),
            i <= a.model_ids@.len(),
            forall|j: int|
                #![trigger a.model_ids@[j]]
                0 <= j < i ==> a.model_ids@[j].name@ == b.model_ids@[j].name@ && ids_match(
                    a.model_ids@[j].value@,
                    b.model_ids@[j].value@,
                ),
        decreases a.model_ids.len() - i,
    {
        if !(a.model_ids[i].name == b.model_ids[i].name) || !ids_equal(
            &a.model_ids[i].value,
            &b.model_ids[i].value,
        ) {
            return false;
        }
        i += 1;
    }
    let mut i: usize = 0;
    while i < a.cards.len()
        invariant
            a.cards@.len() == b.cards@.len(),
            i <= a.cards@.len(),
            forall|j: int|
                #![trigger a.cards@[j]]
                0 <= j < i ==> a.cards@[j].name@ == b.cards@[j].name@ && card_match(
                    a.cards@[j].value,
                    b.cards@[j].value,
                ),
        decreases a.cards.len() - i,
    {
        assert(decreases_to!(a => a.cards@[i as int].value));
        if !(a.cards[i].name == b.cards[i].name) || !card_equal(&a.cards[i].value, &b.cards[i].value) {
            return false;
        }
        i += 1;
    }
    let mut i: usize = 0;
    while i < a.card_arrays.len()
        invariant
            a.card_arrays@.len() == b.card_arrays@.len(),
            i <= a.card_arrays@.len(),
            forall|j: int|
                #![trigger a.card_arrays@[j]]
                0 <= j < i ==> a.card_arrays@[j].name@ == b.card_arrays@[j].name@ && cards_match(
                    a.card_arrays@[j].value@,
                    b.card_arrays@[j].value@,
                ),
        decreases a.card_arrays.len() - i,
    {
        assert(decreases_to!(a => a.card_arrays@[i as int].value));
        if !(a.card_arrays[i].name == b.card_arrays[i].name) || !cards_equal(
            &a.card_arrays[i].value,
            &b.card_arrays[i].value,
        ) {
            return false;
        }
        i += 1;
    }
    true
}

fn ints_equal(a: &Vec<i32>, b: &Vec<i32>) -> (r: bool)
    ensures
        r == (a@ == b@),
{
    if a.len() != b.len() {
        return false;
    }
    let mut i: usize = 0;
    while i < a.len()
        invariant
            a@.len() == b@.len(),
            i <= a@.len(),
            forall|j: int| 0 <= j < i ==> a@[j] == b@[j],
        decreases a.len() - i,
    {
        if a[i] != b[i] {
            return false;
        }
        i += 1;
    }
    assert(a@ =~= b@);
    true
}

impl PartialEq for SavedProperties {
    fn eq(&self, other: &Self) -> (r: bool) {
        props_equal(self, other)
    }
}

impl vstd::std_specs::cmp::PartialEqSpecImpl for SavedProperties {
    open spec fn obeys_eq_spec() -> bool {
        true
    }

    open spec fn eq_spec(&self, other: &Self) -> bool {
        props_match(*self, *other)
    }
}


/// Two model ids compare equal only when they are written the same way, and
/// two well-formed ids (neither part holding a dot) compare equal exactly when
/// they are written the same way: the category counts as much as the entry.
pub proof fn law_model_id_equality(a: ModelId, b: ModelId)
    ensures
        a.eq_spec(&b) ==> model_id_text(a.category@, a.entry@) == model_id_text(
            b.category@,
            b.entry@,
        ),
        !a.category@.contains('.') && !a.entry@.contains('.') && !b.category@.contains('.')
            && !b.entry@.contains('.') ==> (a.eq_spec(&b) <==> model_id_text(a.category@, a.entry@)
            == model_id_text(b.category@, b.entry@)),
        id_match(a, b) <==> a.eq_spec(&b),
{
    let ta = model_id_text(a.category@, a.entry@);
    let tb = model_id_text(b.category@, b.entry@);
    if !a.category@.contains('.') && !a.entry@.contains('.') && !b.category@.contains('.')
        && !b.entry@.contains('.') && ta == tb {
        assert(is_model_id_text(ta, a.category@, a.entry@));
        assert(is_model_id_text(ta, b.category@, b.entry@));
        lemma_model_id_text_unique(ta, a.category@, a.entry@, b.category@, b.entry@);
    }
}

} // verus!
