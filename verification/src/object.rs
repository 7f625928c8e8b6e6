//! Catalogue objects: their coded enumerations, locales, localized fields,
//! and the rules that classify an object (type and bundle).
use vstd::prelude::*;

use crate::text::{owned, str_eq};

verus! {

// ---------------------------------------------------------------------------
// Coded enumerations
// ---------------------------------------------------------------------------
/// An enumeration stored as a small integer code.
pub trait Coded: Sized {
    /// The code of a value.
    spec fn code_of(self) -> u8;

    /// The value a code stands for, if any.
    spec fn from_code_spec(code: u8) -> Option<Self>;

    /// How many codes are in use: the codes are `0 .. count`.
    spec fn code_count() -> u8;

    fn code(&self) -> (c: u8)
        ensures
            c == self.code_of(),
    ;

    fn from_code(code: u8) -> (res: Option<Self>)
        ensures
            res == Self::from_code_spec(code),
    ;

    /// Reading back the code of a value gives the value.
    proof fn lemma_code_roundtrip(self)
        ensures
            Self::from_code_spec(self.code_of()) == Some(self),
            self.code_of() < Self::code_count(),
    ;

    /// A code stands for a value exactly when it is in use, and that value has the code.
    proof fn lemma_code_range(code: u8)
        ensures
            Self::from_code_spec(code) is Some <==> code < Self::code_count(),
            Self::from_code_spec(code) matches Some(v) ==> v.code_of() == code,
    ;
}

#[derive(Clone, Copy, PartialEq, Eq, Structural, Debug)]
pub enum ObjectType {
    Clothing,
    Furniture,
    Portable,
    Scene,
    Minigame,
    Other,
}

impl Coded for ObjectType {
    open spec fn code_of(self) -> u8 {
        match self {
            ObjectType::Clothing => 0,
            ObjectType::Furniture => 1,
            ObjectType::Portable => 2,
            ObjectType::Scene => 3,
            ObjectType::Minigame => 4,
            ObjectType::Other => 5,
        }
    }

    open spec fn from_code_spec(code: u8) -> Option<Self> {
        if code == 0 {
            Some(ObjectType::Clothing)
        } else if code == 1 {
            Some(ObjectType::Furniture)
        } else if code == 2 {
            Some(ObjectType::Portable)
        } else if code == 3 {
            Some(ObjectType::Scene)
        } else if code == 4 {
            Some(ObjectType::Minigame)
        } else if code == 5 {
            Some(ObjectType::Other)
        } else {
            None
        }
    }

    open spec fn code_count() -> u8 {
        6
    }

    fn code(&self) -> (c: u8) {
        match self {
            ObjectType::Clothing => 0,
            ObjectType::Furniture => 1,
            ObjectType::Portable => 2,
            ObjectType::Scene => 3,
            ObjectType::Minigame => 4,
            ObjectType::Other => 5,
        }
    }

    fn from_code(code: u8) -> (res: Option<Self>) {
        match code {
            0 => Some(ObjectType::Clothing),
            1 => Some(ObjectType::Furniture),
            2 => Some(ObjectType::Portable),
            3 => Some(ObjectType::Scene),
            4 => Some(ObjectType::Minigame),
            5 => Some(ObjectType::Other),
            _ => None,
        }
    }

    proof fn lemma_code_roundtrip(self) {
    }

    proof fn lemma_code_range(code: u8) {
    }
}

#[derive(Clone, Copy, PartialEq, Eq, Structural, Debug)]
pub enum ClothingType {
    Hat,
    Hair,
    Jewelry,
    Glasses,
    Torso,
    Hands,
    Legs,
    Feet,
    Outfit,
}

impl Coded for ClothingType {
    open spec fn code_of(self) -> u8 {
        match self {
            ClothingType::Hat => 0,
            ClothingType::Hair => 1,
            ClothingType::Jewelry => 2,
            ClothingType::Glasses => 3,
            ClothingType::Torso => 4,
            ClothingType::Hands => 5,
            ClothingType::Legs => 6,
            ClothingType::Feet => 7,
            ClothingType::Outfit => 8,
        }
    }

    open spec fn from_code_spec(code: u8) -> Option<Self> {
        if code == 0 {
            Some(ClothingType::Hat)
        } else if code == 1 {
            Some(ClothingType::Hair)
        } else if code == 2 {
            Some(ClothingType::Jewelry)
        } else if code == 3 {
            Some(ClothingType::Glasses)
        } else if code == 4 {
            Some(ClothingType::Torso)
        } else if code == 5 {
            Some(ClothingType::Hands)
        } else if code == 6 {
            Some(ClothingType::Legs)
        } else if code == 7 {
            Some(ClothingType::Feet)
        } else if code == 8 {
            Some(ClothingType::Outfit)
        } else {
            None
        }
    }

    open spec fn code_count() -> u8 {
        9
    }

    fn code(&self) -> (c: u8) {
        match self {
            ClothingType::Hat => 0,
            ClothingType::Hair => 1,
            ClothingType::Jewelry => 2,
            ClothingType::Glasses => 3,
            ClothingType::Torso => 4,
            ClothingType::Hands => 5,
            ClothingType::Legs => 6,
            ClothingType::Feet => 7,
            ClothingType::Outfit => 8,
        }
    }

    fn from_code(code: u8) -> (res: Option<Self>) {
        match code {
            0 => Some(ClothingType::Hat),
            1 => Some(ClothingType::Hair),
            2 => Some(ClothingType::Jewelry),
            3 => Some(ClothingType::Glasses),
            4 => Some(ClothingType::Torso),
            5 => Some(ClothingType::Hands),
            6 => Some(ClothingType::Legs),
            7 => Some(ClothingType::Feet),
            8 => Some(ClothingType::Outfit),
            _ => None,
        }
    }

    proof fn lemma_code_roundtrip(self) {
    }

    proof fn lemma_code_range(code: u8) {
    }
}

#[derive(Clone, Copy, PartialEq, Eq, Structural, Debug)]
pub enum FurnitureType {
    Appliance,
    Chair,
    Cube,
    Flooring,
    Footstool,
    Frame,
    Light,
    Ornament,
    Picture,
    Sofa,
    Storage,
    Table,
}

impl Coded for FurnitureType {
    open spec fn code_of(self) -> u8 {
        match self {
            FurnitureType::Appliance => 0,
            FurnitureType::Chair => 1,
            FurnitureType::Cube => 2,
            FurnitureType::Flooring => 3,
            FurnitureType::Footstool => 4,
            FurnitureType::Frame => 5,
            FurnitureType::Light => 6,
            FurnitureType::Ornament => 7,
            FurnitureType::Picture => 8,
            FurnitureType::Sofa => 9,
            FurnitureType::Storage => 10,
            FurnitureType::Table => 11,
        }
    }

    open spec fn from_code_spec(code: u8) -> Option<Self> {
        if code == 0 {
            Some(FurnitureType::Appliance)
        } else if code == 1 {
            Some(FurnitureType::Chair)
        } else if code == 2 {
            Some(FurnitureType::Cube)
        } else if code == 3 {
            Some(FurnitureType::Flooring)
        } else if code == 4 {
            Some(FurnitureType::Footstool)
        } else if code == 5 {
            Some(FurnitureType::Frame)
        } else if code == 6 {
            Some(FurnitureType::Light)
        } else if code == 7 {
            Some(FurnitureType::Ornament)
        } else if code == 8 {
            Some(FurnitureType::Picture)
        } else if code == 9 {
            Some(FurnitureType::Sofa)
        } else if code == 10 {
            Some(FurnitureType::Storage)
        } else if code == 11 {
            Some(FurnitureType::Table)
        } else {
            None
        }
    }

    open spec fn code_count() -> u8 {
        12
    }

    fn code(&self) -> (c: u8) {
        match self {
            FurnitureType::Appliance => 0,
            FurnitureType::Chair => 1,
            FurnitureType::Cube => 2,
            FurnitureType::Flooring => 3,
            FurnitureType::Footstool => 4,
            FurnitureType::Frame => 5,
            FurnitureType::Light => 6,
            FurnitureType::Ornament => 7,
            FurnitureType::Picture => 8,
            FurnitureType::Sofa => 9,
            FurnitureType::Storage => 10,
            FurnitureType::Table => 11,
        }
    }

    fn from_code(code: u8) -> (res: Option<Self>) {
        match code {
            0 => Some(FurnitureType::Appliance),
            1 => Some(FurnitureType::Chair),
            2 => Some(FurnitureType::Cube),
            3 => Some(FurnitureType::Flooring),
            4 => Some(FurnitureType::Footstool),
            5 => Some(FurnitureType::Frame),
            6 => Some(FurnitureType::Light),
            7 => Some(FurnitureType::Ornament),
            8 => Some(FurnitureType::Picture),
            9 => Some(FurnitureType::Sofa),
            10 => Some(FurnitureType::Storage),
            11 => Some(FurnitureType::Table),
            _ => None,
        }
    }

    proof fn lemma_code_roundtrip(self) {
    }

    proof fn lemma_code_range(code: u8) {
    }
}

#[derive(Clone, Copy, PartialEq, Eq, Structural, Debug)]
pub enum Gender {
    Male,
    Female,
}

impl Coded for Gender {
    open spec fn code_of(self) -> u8 {
        match self {
            Gender::Male => 0,
            Gender::Female => 1,
        }
    }

    open spec fn from_code_spec(code: u8) -> Option<Self> {
        if code == 0 {
            Some(Gender::Male)
        } else if code == 1 {
            Some(Gender::Female)
        } else {
            None
        }
    }

    open spec fn code_count() -> u8 {
        2
    }

    fn code(&self) -> (c: u8) {
        match self {
            Gender::Male => 0,
            Gender::Female => 1,
        }
    }

    fn from_code(code: u8) -> (res: Option<Self>) {
        match code {
            0 => Some(Gender::Male),
            1 => Some(Gender::Female),
            _ => None,
        }
    }

    proof fn lemma_code_roundtrip(self) {
    }

    proof fn lemma_code_range(code: u8) {
    }
}

#[derive(Clone, Copy, PartialEq, Eq, Structural, Debug)]
pub enum SceneType {
    Apartment,
    Clubhouse,
}

impl Coded for SceneType {
    open spec fn code_of(self) -> u8 {
        match self {
            SceneType::Apartment => 0,
            SceneType::Clubhouse => 1,
        }
    }

    open spec fn from_code_spec(code: u8) -> Option<Self> {
        if code == 0 {
            Some(SceneType::Apartment)
        } else if code == 1 {
            Some(SceneType::Clubhouse)
        } else {
            None
        }
    }

    open spec fn code_count() -> u8 {
        2
    }

    fn code(&self) -> (c: u8) {
        match self {
            SceneType::Apartment => 0,
            SceneType::Clubhouse => 1,
        }
    }

    fn from_code(code: u8) -> (res: Option<Self>) {
        match code {
            0 => Some(SceneType::Apartment),
            1 => Some(SceneType::Clubhouse),
            _ => None,
        }
    }

    proof fn lemma_code_roundtrip(self) {
    }

    proof fn lemma_code_range(code: u8) {
    }
}

impl TryFrom<u8> for ObjectType {
    type Error = ();

    fn try_from(value: u8) -> (res: Result<Self, ()>) {
        match Self::from_code(value) {
            Some(v) => Ok(v),
            None => Err(()),
        }
    }
}

impl vstd::std_specs::convert::TryFromSpecImpl<u8> for ObjectType {
    open spec fn obeys_try_from_spec() -> bool {
        true
    }

    open spec fn try_from_spec(v: u8) -> Result<Self, ()> {
        match Self::from_code_spec(v) {
            Some(t) => Ok(t),
            None => Err(()),
        }
    }
}

impl TryFrom<u8> for ClothingType {
    type Error = ();

    fn try_from(value: u8) -> (res: Result<Self, ()>) {
        match Self::from_code(value) {
            Some(v) => Ok(v),
            None => Err(()),
        }
    }
}

impl vstd::std_specs::convert::TryFromSpecImpl<u8> for ClothingType {
    open spec fn obeys_try_from_spec() -> bool {
        true
    }

    open spec fn try_from_spec(v: u8) -> Result<Self, ()> {
        match Self::from_code_spec(v) {
            Some(t) => Ok(t),
            None => Err(()),
        }
    }
}

impl TryFrom<u8> for FurnitureType {
    type Error = ();

    fn try_from(value: u8) -> (res: Result<Self, ()>) {
        match Self::from_code(value) {
            Some(v) => Ok(v),
            None => Err(()),
        }
    }
}

impl vstd::std_specs::convert::TryFromSpecImpl<u8> for FurnitureType {
    open spec fn obeys_try_from_spec() -> bool {
        true
    }

    open spec fn try_from_spec(v: u8) -> Result<Self, ()> {
        match Self::from_code_spec(v) {
            Some(t) => Ok(t),
            None => Err(()),
        }
    }
}

impl TryFrom<u8> for Gender {
    type Error = ();

    fn try_from(value: u8) -> (res: Result<Self, ()>) {
        match Self::from_code(value) {
            Some(v) => Ok(v),
            None => Err(()),
        }
    }
}

impl vstd::std_specs::convert::TryFromSpecImpl<u8> for Gender {
    open spec fn obeys_try_from_spec() -> bool {
        true
    }

    open spec fn try_from_spec(v: u8) -> Result<Self, ()> {
        match Self::from_code_spec(v) {
            Some(t) => Ok(t),
            None => Err(()),
        }
    }
}

impl TryFrom<u8> for SceneType {
    type Error = ();

    fn try_from(value: u8) -> (res: Result<Self, ()>) {
        match Self::from_code(value) {
            Some(v) => Ok(v),
            None => Err(()),
        }
    }
}

impl vstd::std_specs::convert::TryFromSpecImpl<u8> for SceneType {
    open spec fn obeys_try_from_spec() -> bool {
        true
    }

    open spec fn try_from_spec(v: u8) -> Result<Self, ()> {
        match Self::from_code_spec(v) {
            Some(t) => Ok(t),
            None => Err(()),
        }
    }
}

/// The codes the catalogue stores for `ObjectType` (its `repr(u8)` values, in
/// declaration order): Clothing 0, Furniture 1, Portable 2, Scene 3, Minigame 4, Other 5. Each code reads back as
/// its value, and no other code names a value.
pub proof fn lemma_object_type_codes(code: u8)
    ensures
        ObjectType::Clothing.code_of() == 0,
        ObjectType::Furniture.code_of() == 1,
        ObjectType::Portable.code_of() == 2,
        ObjectType::Scene.code_of() == 3,
        ObjectType::Minigame.code_of() == 4,
        ObjectType::Other.code_of() == 5,
        ObjectType::from_code_spec(0) == Some(ObjectType::Clothing),
        ObjectType::from_code_spec(1) == Some(ObjectType::Furniture),
        ObjectType::from_code_spec(2) == Some(ObjectType::Portable),
        ObjectType::from_code_spec(3) == Some(ObjectType::Scene),
        ObjectType::from_code_spec(4) == Some(ObjectType::Minigame),
        ObjectType::from_code_spec(5) == Some(ObjectType::Other),
        code >= 6 ==> ObjectType::from_code_spec(code) is None,
{
}

/// The codes the catalogue stores for `ClothingType` (its `repr(u8)` values, in
/// declaration order): Hat 0, Hair 1, Jewelry 2, Glasses 3, Torso 4, Hands 5, Legs 6, Feet 7, Outfit 8. Each code reads back as
/// its value, and no other code names a value.
pub proof fn lemma_clothing_type_codes(code: u8)
    ensures
        ClothingType::Hat.code_of() == 0,
        ClothingType::Hair.code_of() == 1,
        ClothingType::Jewelry.code_of() == 2,
        ClothingType::Glasses.code_of() == 3,
        ClothingType::Torso.code_of() == 4,
        ClothingType::Hands.code_of() == 5,
        ClothingType::Legs.code_of() == 6,
        ClothingType::Feet.code_of() == 7,
        ClothingType::Outfit.code_of() == 8,
        ClothingType::from_code_spec(0) == Some(ClothingType::Hat),
        ClothingType::from_code_spec(1) == Some(ClothingType::Hair),
        ClothingType::from_code_spec(2) == Some(ClothingType::Jewelry),
        ClothingType::from_code_spec(3) == Some(ClothingType::Glasses),
        ClothingType::from_code_spec(4) == Some(ClothingType::Torso),
        ClothingType::from_code_spec(5) == Some(ClothingType::Hands),
        ClothingType::from_code_spec(6) == Some(ClothingType::Legs),
        ClothingType::from_code_spec(7) == Some(ClothingType::Feet),
        ClothingType::from_code_spec(8) == Some(ClothingType::Outfit),
        code >= 9 ==> ClothingType::from_code_spec(code) is None,
{
}

/// The codes the catalogue stores for `FurnitureType` (its `repr(u8)` values, in
/// declaration order): Appliance 0, Chair 1, Cube 2, Flooring 3, Footstool 4, Frame 5, Light 6, Ornament 7, Picture 8, Sofa 9, Storage 10, Table 11. Each code reads back as
/// its value, and no other code names a value.
pub proof fn lemma_furniture_type_codes(code: u8)
    ensures
        FurnitureType::Appliance.code_of() == 0,
        FurnitureType::Chair.code_of() == 1,
        FurnitureType::Cube.code_of() == 2,
        FurnitureType::Flooring.code_of() == 3,
        FurnitureType::Footstool.code_of() == 4,
        FurnitureType::Frame.code_of() == 5,
        FurnitureType::Light.code_of() == 6,
        FurnitureType::Ornament.code_of() == 7,
        FurnitureType::Picture.code_of() == 8,
        FurnitureType::Sofa.code_of() == 9,
        FurnitureType::Storage.code_of() == 10,
        FurnitureType::Table.code_of() == 11,
        FurnitureType::from_code_spec(0) == Some(FurnitureType::Appliance),
        FurnitureType::from_code_spec(1) == Some(FurnitureType::Chair),
        FurnitureType::from_code_spec(2) == Some(FurnitureType::Cube),
        FurnitureType::from_code_spec(3) == Some(FurnitureType::Flooring),
        FurnitureType::from_code_spec(4) == Some(FurnitureType::Footstool),
        FurnitureType::from_code_spec(5) == Some(FurnitureType::Frame),
        FurnitureType::from_code_spec(6) == Some(FurnitureType::Light),
        FurnitureType::from_code_spec(7) == Some(FurnitureType::Ornament),
        FurnitureType::from_code_spec(8) == Some(FurnitureType::Picture),
        FurnitureType::from_code_spec(9) == Some(FurnitureType::Sofa),
        FurnitureType::from_code_spec(10) == Some(FurnitureType::Storage),
        FurnitureType::from_code_spec(11) == Some(FurnitureType::Table),
        code >= 12 ==> FurnitureType::from_code_spec(code) is None,
{
}

/// The codes the catalogue stores for `Gender` (its `repr(u8)` values, in
/// declaration order): Male 0, Female 1. Each code reads back as
/// its value, and no other code names a value.
pub proof fn lemma_gender_codes(code: u8)
    ensures
        Gender::Male.code_of() == 0,
        Gender::Female.code_of() == 1,
        Gender::from_code_spec(0) == Some(Gender::Male),
        Gender::from_code_spec(1) == Some(Gender::Female),
        code >= 2 ==> Gender::from_code_spec(code) is None,
{
}

/// The codes the catalogue stores for `SceneType` (its `repr(u8)` values, in
/// declaration order): Apartment 0, Clubhouse 1. Each code reads back as
/// its value, and no other code names a value.
pub proof fn lemma_scene_type_codes(code: u8)
    ensures
        SceneType::Apartment.code_of() == 0,
        SceneType::Clubhouse.code_of() == 1,
        SceneType::from_code_spec(0) == Some(SceneType::Apartment),
        SceneType::from_code_spec(1) == Some(SceneType::Clubhouse),
        code >= 2 ==> SceneType::from_code_spec(code) is None,
{
}

/// How an object is obtained.
#[derive(Clone, Copy, PartialEq, Eq, Structural, Debug)]
pub enum Type {
    Reward,
    Premium,
    Other,
}

impl Default for Type {
    fn default() -> (res: Self)
        ensures
            res == Type::Other,
    {
        Type::Other
    }
}

// ---------------------------------------------------------------------------
// Locales
// ---------------------------------------------------------------------------
#[derive(Clone, Copy, PartialEq, Eq, Structural, Debug)]
pub enum Locale {
    BritishEnglish,
    AmericanEnglish,
    SingaporeEnglish,
    Italian,
    German,
    Spanish,
    French,
    Japanese,
    Korean,
    HongKongChinese,
    TaiwaneseChinese,
    Default,
}

impl Default for Locale {
    fn default() -> (res: Self)
        ensures
            res == Locale::Default,
    {
        Locale::Default
    }
}

/// The text form of a locale: its language tag, or `default`.
pub open spec fn locale_code(l: Locale) -> Seq<char> {
    match l {
        Locale::BritishEnglish => "en-GB"@,
        Locale::AmericanEnglish => "en-US"@,
        Locale::SingaporeEnglish => "en-SG"@,
        Locale::Italian => "it-IT"@,
        Locale::German => "de-DE"@,
        Locale::Spanish => "es-ES"@,
        Locale::French => "fr-FR"@,
        Locale::Japanese => "ja-JP"@,
        Locale::Korean => "ko-KR"@,
        Locale::HongKongChinese => "zh-HK"@,
        Locale::TaiwaneseChinese => "zh-TW"@,
        Locale::Default => "default"@,
    }
}

/// The locale a text names: the one whose language tag it is, else `Default`.
pub open spec fn locale_from_code(s: Seq<char>) -> Locale {
    if s == "en-GB"@ {
        Locale::BritishEnglish
    } else if s == "en-US"@ {
        Locale::AmericanEnglish
    } else if s == "en-SG"@ {
        Locale::SingaporeEnglish
    } else if s == "it-IT"@ {
        Locale::Italian
    } else if s == "de-DE"@ {
        Locale::German
    } else if s == "es-ES"@ {
        Locale::Spanish
    } else if s == "fr-FR"@ {
        Locale::French
    } else if s == "ja-JP"@ {
        Locale::Japanese
    } else if s == "ko-KR"@ {
        Locale::Korean
    } else if s == "zh-HK"@ {
        Locale::HongKongChinese
    } else if s == "zh-TW"@ {
        Locale::TaiwaneseChinese
    } else {
        Locale::Default
    }
}

/// The text after the last occurrence of `sep` (all of `s` when it has none),
/// as `s.split(sep).last()` gives it.
pub open spec fn after_last(s: Seq<char>, sep: char) -> Seq<char>
    decreases s.len(),
{
    if s.len() == 0 {
        s
    } else if s.last() == sep {
        Seq::empty()
    } else {
        after_last(s.drop_last(), sep).push(s.last())
    }
}

/// The piece of `s` after its last `sep`.
pub fn last_piece(s: &str, sep: char) -> (res: String)
    ensures
        res@ == after_last(s@, sep),
{
    let cs = crate::text::chars_of(s);
    let n = cs.len();
    let mut start: usize = 0;
    for i in 0..n
        invariant
            n == cs@.len(),
            start <= i,
            after_last(cs@.take(i as int), sep) == cs@.subrange(start as int, i as int),
    {
        let ghost t = cs@.take(i + 1);
        assert(t.drop_last() == cs@.take(i as int));
        if cs[i] == sep {
            start = i + 1;
            assert(cs@.subrange(start as int, i + 1) =~= Seq::<char>::empty());
        } else {
            assert(cs@.subrange(start as int, i + 1) == cs@.subrange(start as int, i as int).push(
                cs@[i as int],
            ));
        }
    }
    assert(cs@.take(n as int) == cs@);
    let mut res = String::new();
    for i in start..n
        invariant
            n == cs@.len(),
            res@ == cs@.subrange(start as int, i as int),
    {
        crate::text::push_char(&mut res, cs[i]);
        assert(cs@.subrange(start as int, i + 1) == cs@.subrange(start as int, i as int).push(
            cs@[i as int],
        ));
    }
    res
}

impl Locale {
    /// The language tag of the locale (`default` for `Default`), as `Display` writes it.
    pub fn to_string(&self) -> (res: String)
        ensures
            res@ == locale_code(*self),
    {
        match self {
            Locale::BritishEnglish => owned("en-GB"),
            Locale::AmericanEnglish => owned("en-US"),
            Locale::SingaporeEnglish => owned("en-SG"),
            Locale::Italian => owned("it-IT"),
            Locale::German => owned("de-DE"),
            Locale::Spanish => owned("es-ES"),
            Locale::French => owned("fr-FR"),
            Locale::Japanese => owned("ja-JP"),
            Locale::Korean => owned("ko-KR"),
            Locale::HongKongChinese => owned("zh-HK"),
            Locale::TaiwaneseChinese => owned("zh-TW"),
            Locale::Default => owned("default"),
        }
    }

    /// The locale that a language tag names; any other text gives `Default`.
    pub fn from_code(s: &str) -> (res: Locale)
        ensures
            res == locale_from_code(s@),
    {
        if str_eq(s, "en-GB") {
            Locale::BritishEnglish
        } else if str_eq(s, "en-US") {
            Locale::AmericanEnglish
        } else if str_eq(s, "en-SG") {
            Locale::SingaporeEnglish
        } else if str_eq(s, "it-IT") {
            Locale::Italian
        } else if str_eq(s, "de-DE") {
            Locale::German
        } else if str_eq(s, "es-ES") {
            Locale::Spanish
        } else if str_eq(s, "fr-FR") {
            Locale::French
        } else if str_eq(s, "ja-JP") {
            Locale::Japanese
        } else if str_eq(s, "ko-KR") {
            Locale::Korean
        } else if str_eq(s, "zh-HK") {
            Locale::HongKongChinese
        } else if str_eq(s, "zh-TW") {
            Locale::TaiwaneseChinese
        } else {
            Locale::Default
        }
    }

    /// The document path of the locale's entry in a localized field:
    /// `default`, or `localized.` followed by the language tag.
    pub fn path(&self) -> (res: String)
        ensures
            res@ == (if *self == Locale::Default {
                "default"@
            } else {
                "localized."@ + locale_code(*self)
            }),
    {
        match self {
            Locale::Default => owned("default"),
            _ => {
                let code = self.to_string();
                crate::text::concat2("localized.", code.as_str())
            },
        }
    }

    /// The region part of the language tag (the text after its last `-`),
    /// or `default` for `Default`.
    pub fn iso_code(&self) -> (res: String)
        ensures
            res@ == (if *self == Locale::Default {
                "default"@
            } else {
                after_last(locale_code(*self), '-')
            }),
    {
        match self {
            Locale::Default => owned("default"),
            _ => {
                let code = self.to_string();
                last_piece(code.as_str(), '-')
            },
        }
    }
}

impl From<String> for Locale {
    fn from(s: String) -> (res: Locale) {
        Locale::from_code(s.as_str())
    }
}

impl vstd::std_specs::convert::FromSpecImpl<String> for Locale {
    open spec fn obeys_from_spec() -> bool {
        true
    }

    open spec fn from_spec(v: String) -> Locale {
        locale_from_code(v@)
    }
}

/// Reading back the text form of a locale gives the locale.
pub proof fn lemma_locale_code_roundtrip(l: Locale)
    ensures
        locale_from_code(locale_code(l)) == l,
{
    reveal_strlit("en-GB");
    reveal_strlit("en-US");
    reveal_strlit("en-SG");
    reveal_strlit("it-IT");
    reveal_strlit("de-DE");
    reveal_strlit("es-ES");
    reveal_strlit("fr-FR");
    reveal_strlit("ja-JP");
    reveal_strlit("ko-KR");
    reveal_strlit("zh-HK");
    reveal_strlit("zh-TW");
    reveal_strlit("default");
    match l {
        Locale::BritishEnglish => {
            let s = "en-GB"@;
            assert(s[0] == 'e' && s[1] == 'n' && s[3] == 'G' && s[4] == 'B');
        },
        Locale::AmericanEnglish => {
            let s = "en-US"@;
            assert(s[0] == 'e' && s[1] == 'n' && s[3] == 'U' && s[4] == 'S');
        },
        Locale::SingaporeEnglish => {
            let s = "en-SG"@;
            assert(s[0] == 'e' && s[1] == 'n' && s[3] == 'S' && s[4] == 'G');
        },
        Locale::Italian => {
            let s = "it-IT"@;
            assert(s[0] == 'i' && s[1] == 't' && s[3] == 'I' && s[4] == 'T');
        },
        Locale::German => {
            let s = "de-DE"@;
            assert(s[0] == 'd' && s[1] == 'e' && s[3] == 'D' && s[4] == 'E');
        },
        Locale::Spanish => {
            let s = "es-ES"@;
            assert(s[0] == 'e' && s[1] == 's' && s[3] == 'E' && s[4] == 'S');
        },
        Locale::French => {
            let s = "fr-FR"@;
            assert(s[0] == 'f' && s[1] == 'r' && s[3] == 'F' && s[4] == 'R');
        },
        Locale::Japanese => {
            let s = "ja-JP"@;
            assert(s[0] == 'j' && s[1] == 'a' && s[3] == 'J' && s[4] == 'P');
        },
        Locale::Korean => {
            let s = "ko-KR"@;
            assert(s[0] == 'k' && s[1] == 'o' && s[3] == 'K' && s[4] == 'R');
        },
        Locale::HongKongChinese => {
            let s = "zh-HK"@;
            assert(s[0] == 'z' && s[1] == 'h' && s[3] == 'H' && s[4] == 'K');
        },
        Locale::TaiwaneseChinese => {
            let s = "zh-TW"@;
            assert(s[0] == 'z' && s[1] == 'h' && s[3] == 'T' && s[4] == 'W');
        },
        Locale::Default => {
            assert("default"@.len() == 7);
        },
    }
}

/// The language tag of each locale, as the catalogue's data keys its
/// localized values: British English `en-GB`, American English `en-US`,
/// Singapore English `en-SG`, Italian `it-IT`, German `de-DE`, Spanish
/// `es-ES`, French `fr-FR`, Japanese `ja-JP`, Korean `ko-KR`, Hong Kong
/// Chinese `zh-HK`, Taiwanese Chinese `zh-TW`; `default` for the default
/// value. Each tag reads back as its locale, and any other text as `Default`.
pub proof fn lemma_locale_tags(s: Seq<char>)
    ensures
        locale_code(Locale::BritishEnglish) == "en-GB"@,
        locale_code(Locale::AmericanEnglish) == "en-US"@,
        locale_code(Locale::SingaporeEnglish) == "en-SG"@,
        locale_code(Locale::Italian) == "it-IT"@,
        locale_code(Locale::German) == "de-DE"@,
        locale_code(Locale::Spanish) == "es-ES"@,
        locale_code(Locale::French) == "fr-FR"@,
        locale_code(Locale::Japanese) == "ja-JP"@,
        locale_code(Locale::Korean) == "ko-KR"@,
        locale_code(Locale::HongKongChinese) == "zh-HK"@,
        locale_code(Locale::TaiwaneseChinese) == "zh-TW"@,
        locale_code(Locale::Default) == "default"@,
        locale_from_code("en-GB"@) == Locale::BritishEnglish,
        locale_from_code("en-US"@) == Locale::AmericanEnglish,
        locale_from_code("en-SG"@) == Locale::SingaporeEnglish,
        locale_from_code("it-IT"@) == Locale::Italian,
        locale_from_code("de-DE"@) == Locale::German,
        locale_from_code("es-ES"@) == Locale::Spanish,
        locale_from_code("fr-FR"@) == Locale::French,
        locale_from_code("ja-JP"@) == Locale::Japanese,
        locale_from_code("ko-KR"@) == Locale::Korean,
        locale_from_code("zh-HK"@) == Locale::HongKongChinese,
        locale_from_code("zh-TW"@) == Locale::TaiwaneseChinese,
        locale_from_code("default"@) == Locale::Default,
        s != "en-GB"@ && s != "en-US"@ && s != "en-SG"@ && s != "it-IT"@ && s != "de-DE"@ && s != "es-ES"@ && s != "fr-FR"@ && s != "ja-JP"@ && s != "ko-KR"@ && s != "zh-HK"@ && s != "zh-TW"@ ==> locale_from_code(s) == Locale::Default,
{
    lemma_locale_code_roundtrip(Locale::BritishEnglish);
    lemma_locale_code_roundtrip(Locale::AmericanEnglish);
    lemma_locale_code_roundtrip(Locale::SingaporeEnglish);
    lemma_locale_code_roundtrip(Locale::Italian);
    lemma_locale_code_roundtrip(Locale::German);
    lemma_locale_code_roundtrip(Locale::Spanish);
    lemma_locale_code_roundtrip(Locale::French);
    lemma_locale_code_roundtrip(Locale::Japanese);
    lemma_locale_code_roundtrip(Locale::Korean);
    lemma_locale_code_roundtrip(Locale::HongKongChinese);
    lemma_locale_code_roundtrip(Locale::TaiwaneseChinese);
    lemma_locale_code_roundtrip(Locale::Default);
}

// ---------------------------------------------------------------------------
// Localized fields
// ---------------------------------------------------------------------------
/// A field with a default value and per-locale values. `localized` holds
/// (language tag, value) pairs in ascending tag order, each tag once (see
/// `LocalizedEntry::wf`), as a map keyed by tag lists them.
pub struct LocalizedEntry<T> {
    pub default: Option<T>,
    pub localized: Option<Vec<(String, T)>>,
}

/// `a` comes before `b` in the order of strings: the first character where
/// they differ is smaller in `a`, or `a` is a proper prefix of `b`. (Ordering
/// UTF-8 bytes, as `String` does, gives the order of the characters' code points.)
pub open spec fn text_less(a: Seq<char>, b: Seq<char>) -> bool
    decreases a.len(),
{
    if a.len() == 0 {
        b.len() > 0
    } else if b.len() == 0 {
        false
    } else if a[0] != b[0] {
        (a[0] as u32) < (b[0] as u32)
    } else {
        text_less(a.drop_first(), b.drop_first())
    }
}

/// The tags of the pairs strictly ascend: they are sorted and each occurs once.
pub open spec fn tags_ascending<T>(pairs: Seq<(String, T)>) -> bool {
    forall|i: int, j: int|
        0 <= i < j < pairs.len() ==> #[trigger] text_less(pairs[i].0@, pairs[j].0@)
}

impl<T> LocalizedEntry<T> {
    /// The localized values, when present, are listed in ascending tag order,
    /// each tag once.
    pub open spec fn wf(self) -> bool {
        match self.localized {
            Some(l) => tags_ascending(l@),
            None => true,
        }
    }

    /// Whether the localized values are listed in ascending tag order, each tag once.
    pub fn is_wf(&self) -> (res: bool)
        ensures
            res == self.wf(),
    {
        match &self.localized {
            Some(l) => has_ascending_tags(l),
            None => true,
        }
    }
}

/// An optional localized field is well formed when absent or well formed.
pub open spec fn entry_wf<T>(e: Option<LocalizedEntry<T>>) -> bool {
    match e {
        Some(x) => x.wf(),
        None => true,
    }
}

/// Whether `a` comes before `b` in the order of strings.
pub fn text_before(a: &str, b: &str) -> (res: bool)
    ensures
        res == text_less(a@, b@),
{
    let ac = crate::text::chars_of(a);
    let bc = crate::text::chars_of(b);
    let mut i: usize = 0;
    assert(ac@.skip(0) == ac@);
    assert(bc@.skip(0) == bc@);
    while i < ac.len() && i < bc.len()
        invariant
            ac@ == a@,
            bc@ == b@,
            i <= ac@.len(),
            i <= bc@.len(),
            text_less(a@, b@) == text_less(ac@.skip(i as int), bc@.skip(i as int)),
        decreases ac@.len() - i,
    {
        assert(ac@.skip(i as int)[0] == ac@[i as int]);
        assert(bc@.skip(i as int)[0] == bc@[i as int]);
        if ac[i] != bc[i] {
            return (ac[i] as u32) < (bc[i] as u32);
        }
        assert(ac@.skip(i as int).drop_first() == ac@.skip(i + 1));
        assert(bc@.skip(i as int).drop_first() == bc@.skip(i + 1));
        i = i + 1;
    }
    assert(ac@.skip(i as int).len() == ac@.len() - i);
    assert(bc@.skip(i as int).len() == bc@.len() - i);
    i < bc.len()
}

/// Whether the tags of the pairs strictly ascend.
pub fn has_ascending_tags<T>(pairs: &Vec<(String, T)>) -> (res: bool)
    ensures
        res == tags_ascending(pairs@),
{
    let n = pairs.len();
    for j in 0..n
        invariant
            n == pairs@.len(),
            forall|a: int, b: int|
                0 <= a < b < j ==> #[trigger] text_less(pairs@[a].0@, pairs@[b].0@),
    {
        for i in 0..j
            invariant
                n == pairs@.len(),
                j < n,
                forall|a: int, b: int|
                    0 <= a < b < j ==> #[trigger] text_less(pairs@[a].0@, pairs@[b].0@),
                forall|a: int| 0 <= a < i ==> #[trigger] text_less(pairs@[a].0@, pairs@[j as int].0@),
        {
            if !text_before(pairs[i].0.as_str(), pairs[j].0.as_str()) {
                assert(!text_less(pairs@[i as int].0@, pairs@[j as int].0@));
                return false;
            }
        }
    }
    true
}

/// The value stored under `key` from position `i` on: the first entry with that key.
pub open spec fn lookup_from<T>(pairs: Seq<(String, T)>, key: Seq<char>, i: int) -> Option<T>
    decreases pairs.len() - i,
{
    if i < 0 || i >= pairs.len() {
        None
    } else if pairs[i].0@ == key {
        Some(pairs[i].1)
    } else {
        lookup_from(pairs, key, i + 1)
    }
}

/// The value stored under `key`.
pub open spec fn lookup<T>(pairs: Seq<(String, T)>, key: Seq<char>) -> Option<T> {
    lookup_from(pairs, key, 0)
}

/// The value of a localized field for a locale: the default value for
/// `Default`, else the value stored under the locale's language tag.
pub open spec fn localized_spec<T>(entry: Option<LocalizedEntry<T>>, locale: Locale) -> Option<T> {
    match entry {
        None => None,
        Some(e) => if locale == Locale::Default {
            e.default
        } else {
            match e.localized {
                None => None,
                Some(l) => lookup(l@, locale_code(locale)),
            }
        },
    }
}

/// The value stored under `key`.
pub fn lookup_value<'a, T>(pairs: &'a Vec<(String, T)>, key: &str) -> (res: Option<&'a T>)
    ensures
        match res {
            Some(r) => lookup(pairs@, key@) == Some(*r),
            None => lookup(pairs@, key@) is None,
        },
{
    let n = pairs.len();
    for i in 0..n
        invariant
            n == pairs@.len(),
            lookup(pairs@, key@) == lookup_from(pairs@, key@, i as int),
    {
        if str_eq(pairs[i].0.as_str(), key) {
            return Some(&pairs[i].1);
        }
    }
    None
}

/// The value of a localized field for `locale`.
pub fn localized_value<'a, T>(entry: &'a Option<LocalizedEntry<T>>, locale: Locale) -> (res: Option<
    &'a T,
>)
    ensures
        match res {
            Some(r) => localized_spec(*entry, locale) == Some(*r),
            None => localized_spec(*entry, locale) is None,
        },
{
    match entry {
        None => None,
        Some(e) => match locale {
            Locale::Default => match &e.default {
                Some(d) => Some(d),
                None => None,
            },
            _ => match &e.localized {
                None => None,
                Some(l) => {
                    let tag = locale.to_string();
                    lookup_value(l, tag.as_str())
                },
            },
        },
    }
}

/// A copy of an optional string.
fn clone_text(s: Option<&String>) -> (res: Option<String>)
    ensures
        match s {
            Some(v) => res == Some(*v),
            None => res is None,
        },
{
    match s {
        Some(v) => Some(v.clone()),
        None => None,
    }
}

// ---------------------------------------------------------------------------
// Objects
// ---------------------------------------------------------------------------
pub struct Version {
    pub odc: String,
    pub hdk: Option<String>,
    pub object: Option<String>,
}

pub struct Images {
    pub large: Option<String>,
    pub small: Option<String>,
    pub maker: Option<String>,
}

pub struct Element {
    pub name: String,
    pub element: String,
}

pub struct Data {
    pub component: String,
    pub elements: Vec<Element>,
}

pub struct Entitlements {
    pub entitlement_id: Option<Vec<EntitlementEntry>>,
    pub category_id: Option<Vec<EntitlementEntry>>,
    pub product_id: Option<Vec<EntitlementEntry>>,
}

pub struct EntitlementEntry {
    pub territory: String,
    pub value: String,
}

#[derive(Clone, Copy, PartialEq, Eq, Structural, Debug)]
pub struct AgeRating {
    pub minimum_age: u32,
    pub parental_control_level: u32,
}

pub struct Legal {
    pub age_rating: Option<LocalizedEntry<AgeRating>>,
}

pub struct Heat {
    pub main: Option<u32>,
    pub host: Option<u32>,
    pub vram: Option<u32>,
    pub ppu: Option<u32>,
    pub net: Option<u32>,
}

pub struct Metadata {
    pub object_type: ObjectType,
    pub bundle: Option<bool>,
    pub furniture_type: Option<FurnitureType>,
    pub clothing_type: Option<ClothingType>,
    pub genders: Option<Vec<Gender>>,
    pub scene_type: Option<SceneType>,
}

/// A catalogue object. `for_locale` holds the language tag that its
/// localized fields are read in.
pub struct Object {
    pub uuid: String,
    pub version: Version,
    pub names: Option<LocalizedEntry<String>>,
    pub descriptions: Option<LocalizedEntry<String>>,
    pub maker: Option<LocalizedEntry<String>>,
    pub images: Option<Images>,
    pub data: Option<Data>,
    pub entitlements: Option<Entitlements>,
    pub legal: Option<Legal>,
    pub heat: Option<Heat>,
    pub timestamp: Option<String>,
    pub metadata: Option<Metadata>,
    pub for_locale: String,
}

// ---------------------------------------------------------------------------
// Pattern matching
// ---------------------------------------------------------------------------
#[verifier::external_type_specification]
#[verifier::external_body]
pub struct ExRegexError(fancy_regex::Error);

/// What compiling `pattern` with `fancy_regex::Regex::new` and asking
/// `is_match` on `text` gives: `None` where either step reports an error.
pub uninterp spec fn regex_match(pattern: Seq<char>, text: Seq<char>) -> Option<bool>;

/// `fancy_regex::Regex::new(pattern)` followed by `Regex::is_match(text)`.
/// Claims: the outcome is the named one, an error exactly where it names none.
#[verifier::external_body]
fn regex_is_match(pattern: &str, text: &str) -> (res: Result<bool, fancy_regex::Error>)
    ensures
        match res {
            Ok(b) => regex_match(pattern@, text@) == Some(b),
            Err(_) => regex_match(pattern@, text@) is None,
        },
{
    fancy_regex::Regex::new(pattern)?.is_match(text)
}

/// Premium store items, such as `UP9000-NPUQ00020_00`.
pub const REGEX_PREMIUM_ITEM: &'static str = r"^[A-Z]{2}\d{4}-[A-Z]{4}\d{5}_\d{2}(?:-[A-Z0-9]{6})*$";

/// Items handed out as rewards.
pub const REGEX_REWARD_ITEM: &'static str = r"^(?:LUA|AUTOMATIC)_REWARD$";

/// Names and descriptions that suggest a bundle.
pub const REGEX_BUNDLE_ITEM: &'static str = r"(?i)(?:bundle|pack|set|collection)";

/// Whether `pattern` matches `text`, `None` where matching fails.
pub fn match_outcome(pattern: &str, text: &str) -> (res: Option<bool>)
    ensures
        res == regex_match(pattern@, text@),
{
    match regex_is_match(pattern, text) {
        Ok(b) => Some(b),
        Err(_) => None,
    }
}

/// Scans outcomes in order until one equals `target`: `Some(true)` when it is
/// found, `Some(false)` when the scan ends without it, `None` when a failed
/// outcome comes first.
pub open spec fn scan_for(outcomes: Seq<Option<bool>>, target: bool) -> Option<bool>
    decreases outcomes.len(),
{
    if outcomes.len() == 0 {
        Some(false)
    } else {
        match outcomes[0] {
            None => None,
            Some(b) => if b == target {
                Some(true)
            } else {
                scan_for(outcomes.drop_first(), target)
            },
        }
    }
}

/// `Iterator::any` over match outcomes, stopping at the first match.
pub open spec fn any_spec(outcomes: Seq<Option<bool>>) -> Option<bool> {
    scan_for(outcomes, true)
}

/// `Iterator::all` over match outcomes, stopping at the first non-match.
pub open spec fn all_spec(outcomes: Seq<Option<bool>>) -> Option<bool> {
    match scan_for(outcomes, false) {
        Some(found) => Some(!found),
        None => None,
    }
}

fn scan_outcomes(outcomes: &Vec<Option<bool>>, target: bool) -> (res: Option<bool>)
    ensures
        res == scan_for(outcomes@, target),
{
    let n = outcomes.len();
    assert(outcomes@.skip(0) == outcomes@);
    for i in 0..n
        invariant
            n == outcomes@.len(),
            scan_for(outcomes@, target) == scan_for(outcomes@.skip(i as int), target),
    {
        let ghost rest = outcomes@.skip(i as int);
        assert(rest[0] == outcomes@[i as int]);
        assert(rest.drop_first() == outcomes@.skip(i + 1));
        match outcomes[i] {
            None => return None,
            Some(b) => {
                if b == target {
                    return Some(true);
                }
            },
        }
    }
    assert(outcomes@.skip(n as int).len() == 0);
    Some(false)
}

/// Whether any outcome is a match, scanning in order; `None` when a failure
/// comes before the first match.
pub fn any_match(outcomes: &Vec<Option<bool>>) -> (res: Option<bool>)
    ensures
        res == any_spec(outcomes@),
{
    scan_outcomes(outcomes, true)
}

/// Whether every outcome is a match, scanning in order; `None` when a failure
/// comes before the first non-match.
pub fn all_match(outcomes: &Vec<Option<bool>>) -> (res: Option<bool>)
    ensures
        res == all_spec(outcomes@),
{
    match scan_outcomes(outcomes, false) {
        Some(found) => Some(!found),
        None => None,
    }
}

/// The type that entitlement match outcomes give: `Reward` when some value is
/// a reward item, else `Premium` when every value is a premium item, else
/// `Other`; `None` where a failed match decides.
pub open spec fn classify_spec(reward: Seq<Option<bool>>, premium: Seq<Option<bool>>) -> Option<
    Type,
> {
    match any_spec(reward) {
        None => None,
        Some(true) => Some(Type::Reward),
        Some(false) => match all_spec(premium) {
            None => None,
            Some(true) => Some(Type::Premium),
            Some(false) => Some(Type::Other),
        },
    }
}

/// Classifies entitlements from the outcomes of matching each value against
/// the reward pattern and against the premium pattern.
pub fn classify_entitlements(reward: &Vec<Option<bool>>, premium: &Vec<Option<bool>>) -> (res:
    Option<Type>)
    ensures
        res == classify_spec(reward@, premium@),
{
    match any_match(reward) {
        None => None,
        Some(true) => Some(Type::Reward),
        Some(false) => match all_match(premium) {
            None => None,
            Some(true) => Some(Type::Premium),
            Some(false) => Some(Type::Other),
        },
    }
}

/// The outcomes of matching `pattern` against each value.
pub open spec fn outcomes_spec(pattern: Seq<char>, values: Seq<EntitlementEntry>) -> Seq<
    Option<bool>,
> {
    Seq::new(values.len(), |i: int| regex_match(pattern, values[i].value@))
}

fn match_each(pattern: &str, values: &Vec<EntitlementEntry>) -> (res: Vec<Option<bool>>)
    ensures
        res@ == outcomes_spec(pattern@, values@),
{
    let mut res: Vec<Option<bool>> = Vec::new();
    let n = values.len();
    for i in 0..n
        invariant
            n == values@.len(),
            res@ == outcomes_spec(pattern@, values@.take(i as int)),
    {
        let o = match_outcome(pattern, values[i].value.as_str());
        res.push(o);
        assert(res@ =~= outcomes_spec(pattern@, values@.take(i + 1)));
    }
    assert(values@.take(n as int) == values@);
    res
}

/// The type of an object: decided by its entitlement ids when it has them,
/// else `Other`. `None` where a failed pattern match decides.
pub open spec fn object_type_spec(obj: Object) -> Option<Type> {
    match obj.entitlements {
        Some(e) => match e.entitlement_id {
            Some(ids) => classify_spec(
                outcomes_spec(REGEX_REWARD_ITEM@, ids@),
                outcomes_spec(REGEX_PREMIUM_ITEM@, ids@),
            ),
            None => Some(Type::Other),
        },
        None => Some(Type::Other),
    }
}

/// The text of an optional localized string, empty when absent.
pub open spec fn text_or_empty(t: Option<String>) -> Seq<char> {
    match t {
        Some(s) => s@,
        None => Seq::empty(),
    }
}

/// Whether an object looks like a bundle: its name or else its description
/// (in its locale, empty when absent) matches the bundle pattern. `None`
/// where a failed pattern match decides.
pub open spec fn bundle_spec(obj: Object) -> Option<bool> {
    let locale = locale_from_code(obj.for_locale@);
    any_spec(
        seq![
            regex_match(REGEX_BUNDLE_ITEM@, text_or_empty(localized_spec(obj.names, locale))),
            regex_match(REGEX_BUNDLE_ITEM@, text_or_empty(localized_spec(obj.descriptions, locale))),
        ],
    )
}

impl Object {
    /// The localized fields list their values in ascending tag order, each tag once.
    pub open spec fn wf(self) -> bool {
        &&& entry_wf(self.names)
        &&& entry_wf(self.descriptions)
        &&& entry_wf(self.maker)
        &&& match self.legal {
            Some(l) => entry_wf(l.age_rating),
            None => true,
        }
    }

    /// Whether the localized fields list their values in ascending tag order,
    /// each tag once.
    pub fn is_wf(&self) -> (res: bool)
        ensures
            res == self.wf(),
    {
        let a = match &self.names {
            Some(e) => e.is_wf(),
            None => true,
        };
        let b = match &self.descriptions {
            Some(e) => e.is_wf(),
            None => true,
        };
        let c = match &self.maker {
            Some(e) => e.is_wf(),
            None => true,
        };
        let d = match &self.legal {
            Some(l) => match &l.age_rating {
                Some(e) => e.is_wf(),
                None => true,
            },
            None => true,
        };
        a && b && c && d
    }

    /// The locale that the object is read in.
    pub fn locale(&self) -> (res: Locale)
        ensures
            res == locale_from_code(self.for_locale@),
    {
        Locale::from_code(self.for_locale.as_str())
    }

    /// Reads the object in `locale`, or in `Default` when none is given.
    pub fn set_locale(&mut self, locale: Option<Locale>)
        ensures
            final(self).for_locale@ == locale_code(
                match locale {
                    Some(l) => l,
                    None => Locale::Default,
                },
            ),
            final(self).uuid == old(self).uuid,
            final(self).version == old(self).version,
            final(self).names == old(self).names,
            final(self).descriptions == old(self).descriptions,
            final(self).maker == old(self).maker,
            final(self).images == old(self).images,
            final(self).data == old(self).data,
            final(self).entitlements == old(self).entitlements,
            final(self).legal == old(self).legal,
            final(self).heat == old(self).heat,
            final(self).timestamp == old(self).timestamp,
            final(self).metadata == old(self).metadata,
    {
        let l = match locale {
            Some(l) => l,
            None => Locale::Default,
        };
        self.for_locale = l.to_string();
    }

    /// The name in the object's locale.
    pub fn name(&self) -> (res: Option<String>)
        ensures
            res == localized_spec(self.names, locale_from_code(self.for_locale@)),
    {
        clone_text(localized_value(&self.names, self.locale()))
    }

    /// The description in the object's locale.
    pub fn description(&self) -> (res: Option<String>)
        ensures
            res == localized_spec(self.descriptions, locale_from_code(self.for_locale@)),
    {
        clone_text(localized_value(&self.descriptions, self.locale()))
    }

    /// The maker in the object's locale.
    pub fn maker(&self) -> (res: Option<String>)
        ensures
            res == localized_spec(self.maker, locale_from_code(self.for_locale@)),
    {
        clone_text(localized_value(&self.maker, self.locale()))
    }

    /// The age rating in the object's locale.
    pub fn legal(&self) -> (res: Option<AgeRating>)
        ensures
            res == match self.legal {
                Some(l) => localized_spec(l.age_rating, locale_from_code(self.for_locale@)),
                None => None,
            },
    {
        match &self.legal {
            None => None,
            Some(l) => match localized_value(&l.age_rating, self.locale()) {
                Some(a) => Some(*a),
                None => None,
            },
        }
    }

    /// Whether the object looks like a bundle (see `bundle_spec`).
    pub fn bundle(&self) -> (res: Option<bool>)
        ensures
            res == bundle_spec(*self),
    {
        let name = match self.name() {
            Some(n) => n,
            None => String::new(),
        };
        let description = match self.description() {
            Some(d) => d,
            None => String::new(),
        };
        let mut outcomes: Vec<Option<bool>> = Vec::new();
        outcomes.push(match_outcome(REGEX_BUNDLE_ITEM, name.as_str()));
        outcomes.push(match_outcome(REGEX_BUNDLE_ITEM, description.as_str()));
        assert(outcomes@ =~= seq![
            regex_match(REGEX_BUNDLE_ITEM@, text_or_empty(localized_spec(self.names, locale_from_code(self.for_locale@)))),
            regex_match(REGEX_BUNDLE_ITEM@, text_or_empty(localized_spec(self.descriptions, locale_from_code(self.for_locale@)))),
        ]);
        any_match(&outcomes)
    }

    /// The type of the object (see `object_type_spec`).
    pub fn object_type(&self) -> (res: Option<Type>)
        ensures
            res == object_type_spec(*self),
    {
        match &self.entitlements {
            Some(e) => match &e.entitlement_id {
                Some(ids) => {
                    let reward = match_each(REGEX_REWARD_ITEM, ids);
                    let premium = match_each(REGEX_PREMIUM_ITEM, ids);
                    classify_entitlements(&reward, &premium)
                },
                None => Some(Type::Other),
            },
            None => Some(Type::Other),
        }
    }
}

} // verus!
