//! The typed data model of one decoded weekly plan.

use vstd::prelude::*;
use vstd::string::StrSliceExecFns;

use crate::date::spec_weekday_of;
use crate::date::weekday_of;
use crate::error::MensaError;

verus! {

/// A day of the week, derived from a plan day's raw date string.
#[derive(Debug, Clone, Copy, PartialEq, Eq, Hash, Structural)]
pub enum Weekday {
    Mon,
    Tue,
    Wed,
    Thu,
    Fri,
    Sat,
    Sun,
}

/// The code point of `c`, upper-case ASCII letters folded to lower case.
pub open spec fn lower_code(c: char) -> u32 {
    if 65 <= c as u32 <= 90 {
        (c as u32 + 32) as u32
    } else {
        c as u32
    }
}

/// ASCII-case-insensitive equality of two character sequences.
pub open spec fn eq_ignore_ascii_case(a: Seq<char>, b: Seq<char>) -> bool {
    a.len() == b.len() && forall|i: int|
        0 <= i < a.len() ==> lower_code(a[i]) == lower_code(#[trigger] b[i])
}

/// Which weekday a name selects: the three-letter English abbreviations,
/// without regard to ASCII case.
pub open spec fn spec_weekday_from_name(s: Seq<char>) -> Result<Weekday, MensaError> {
    if eq_ignore_ascii_case(s, "mon"@) {
        Ok(Weekday::Mon)
    } else if eq_ignore_ascii_case(s, "tue"@) {
        Ok(Weekday::Tue)
    } else if eq_ignore_ascii_case(s, "wed"@) {
        Ok(Weekday::Wed)
    } else if eq_ignore_ascii_case(s, "thu"@) {
        Ok(Weekday::Thu)
    } else if eq_ignore_ascii_case(s, "fri"@) {
        Ok(Weekday::Fri)
    } else if eq_ignore_ascii_case(s, "sat"@) {
        Ok(Weekday::Sat)
    } else if eq_ignore_ascii_case(s, "sun"@) {
        Ok(Weekday::Sun)
    } else {
        Err(MensaError::UnknownWeekday)
    }
}

/// ASCII-case-insensitive equality of two string slices.
fn eq_icase(a: &str, b: &str) -> (r: bool)
    ensures
        r == eq_ignore_ascii_case(a@, b@),
{
    let n = a.unicode_len();
    if n != b.unicode_len() {
        return false;
    }
    let mut i: usize = 0;
    while i < n
        invariant
            n == a@.len(),
            n == b@.len(),
            i <= n,
            forall|j: int| 0 <= j < i ==> lower_code(a@[j]) == lower_code(#[trigger] b@[j]),
        decreases n - i,
    {
        let ca = a.get_char(i) as u32;
        let cb = b.get_char(i) as u32;
        let la = if 65 <= ca && ca <= 90 {
            ca + 32
        } else {
            ca
        };
        let lb = if 65 <= cb && cb <= 90 {
            cb + 32
        } else {
            cb
        };
        if la != lb {
            return false;
        }
        i += 1;
    }
    true
}

impl Weekday {
    /// Parses a weekday name, without regard to ASCII case.
    pub fn try_from(value: &str) -> (r: Result<Weekday, MensaError>)
        ensures
            r == spec_weekday_from_name(value@),
    {
        if eq_icase(value, "mon") {
            Ok(Weekday::Mon)
        } else if eq_icase(value, "tue") {
            Ok(Weekday::Tue)
        } else if eq_icase(value, "wed") {
            Ok(Weekday::Wed)
        } else if eq_icase(value, "thu") {
            Ok(Weekday::Thu)
        } else if eq_icase(value, "fri") {
            Ok(Weekday::Fri)
        } else if eq_icase(value, "sat") {
            Ok(Weekday::Sat)
        } else if eq_icase(value, "sun") {
            Ok(Weekday::Sun)
        } else {
            Err(MensaError::UnknownWeekday)
        }
    }
}

/// The position of a weekday within the week, Monday first.
pub open spec fn weekday_rank(w: Weekday) -> int {
    match w {
        Weekday::Mon => 0,
        Weekday::Tue => 1,
        Weekday::Wed => 2,
        Weekday::Thu => 3,
        Weekday::Fri => 4,
        Weekday::Sat => 5,
        Weekday::Sun => 6,
    }
}

/// The four price tiers of one dish, each the decimal-like string exactly as
/// the upstream system returned it — no numeric coercion is performed.
#[derive(Debug)]
pub struct Price {
    pub price_students: String,
    pub price_workers: String,
    pub price_guests: String,
    pub price_school: String,
}

#[verifier::ext_equal]
pub ghost struct PriceView {
    pub price_students: Seq<char>,
    pub price_workers: Seq<char>,
    pub price_guests: Seq<char>,
    pub price_school: Seq<char>,
}

impl View for Price {
    type V = PriceView;

    open spec fn view(&self) -> PriceView {
        PriceView {
            price_students: self.price_students@,
            price_workers: self.price_workers@,
            price_guests: self.price_guests@,
            price_school: self.price_school@,
        }
    }
}

impl Clone for Price {
    fn clone(&self) -> (r: Self)
        ensures
            r@ == self@,
    {
        Price {
            price_students: self.price_students.clone(),
            price_workers: self.price_workers.clone(),
            price_guests: self.price_guests.clone(),
            price_school: self.price_school.clone(),
        }
    }
}

/// One dish: its category, an optional dietary annotation, its description,
/// and its price tiers.
#[derive(Debug)]
pub struct Menu {
    pub art: String,
    pub food_type: Option<String>,
    pub name: String,
    pub price: Price,
}

#[verifier::ext_equal]
pub ghost struct MenuView {
    pub art: Seq<char>,
    pub food_type: Option<Seq<char>>,
    pub name: Seq<char>,
    pub price: PriceView,
}

impl View for Menu {
    type V = MenuView;

    open spec fn view(&self) -> MenuView {
        MenuView {
            art: self.art@,
            food_type: match self.food_type {
                Some(s) => Some(s@),
                None => None,
            },
            name: self.name@,
            price: self.price@,
        }
    }
}

impl Clone for Menu {
    fn clone(&self) -> (r: Self)
        ensures
            r@ == self@,
    {
        Menu {
            art: self.art.clone(),
            food_type: match &self.food_type {
                Some(s) => Some(s.clone()),
                None => None,
            },
            name: self.name.clone(),
            price: self.price.clone(),
        }
    }
}

/// One calendar day's offerings: the raw date string exactly as received and
/// the dishes of that day, in document order. The day's weekday is never
/// stored; it is computed on demand from the raw date string.
#[derive(Debug)]
pub struct Day {
    pub date: String,
    pub menues: Vec<Menu>,
}

#[verifier::ext_equal]
pub ghost struct DayView {
    pub date: Seq<char>,
    pub menues: Seq<MenuView>,
}

/// The views of a sequence of menus.
pub open spec fn menus_view(v: Seq<Menu>) -> Seq<MenuView> {
    v.map(|i: int, m: Menu| m@)
}

impl View for Day {
    type V = DayView;

    open spec fn view(&self) -> DayView {
        DayView { date: self.date@, menues: menus_view(self.menues@) }
    }
}

impl Clone for Day {
    fn clone(&self) -> (r: Self)
        ensures
            r@ == self@,
    {
        let mut menues: Vec<Menu> = Vec::new();
        let mut i: usize = 0;
        while i < self.menues.len()
            invariant
                i <= self.menues.len(),
                menues@.len() == i,
                forall|j: int| 0 <= j < i ==> menues@[j]@ == self.menues@[j]@,
            decreases self.menues.len() - i,
        {
            menues.push(self.menues[i].clone());
            i += 1;
        }
        let r = Day { date: self.date.clone(), menues };
        proof {
            assert(r@.menues =~= self@.menues);
        }
        r
    }
}

impl Day {
    /// The raw date string of this day, format `dd.mm.yyyy`.
    pub fn date(&self) -> (r: &str)
        ensures
            r@ == self@.date,
    {
        self.date.as_str()
    }

    /// The weekday this day's raw date string resolves to.
    pub fn weekday(&self) -> (r: Result<Weekday, MensaError>)
        ensures
            r == spec_weekday_of(self@.date),
    {
        weekday_of(self.date.as_str())
    }
}

/// The display name of a location as the upstream system reports it; it may
/// differ cosmetically from the catalog name.
#[derive(Debug)]
pub struct Mensa {
    pub name: String,
}

#[verifier::ext_equal]
pub ghost struct MensaView {
    pub name: Seq<char>,
}

impl View for Mensa {
    type V = MensaView;

    open spec fn view(&self) -> MensaView {
        MensaView { name: self.name@ }
    }
}

impl Clone for Mensa {
    fn clone(&self) -> (r: Self)
        ensures
            r@ == self@,
    {
        Mensa { name: self.name.clone() }
    }
}

/// One physical location of a decoded plan: its identifier as returned by
/// the upstream system (not guaranteed to equal the identifier sent in the
/// request), its display name, and its days in document order.
#[derive(Debug)]
pub struct Place {
    pub id: String,
    pub mensa: Mensa,
    pub days: Vec<Day>,
}

#[verifier::ext_equal]
pub ghost struct PlaceView {
    pub id: Seq<char>,
    pub mensa: MensaView,
    pub days: Seq<DayView>,
}

/// The views of a sequence of days.
pub open spec fn days_view(v: Seq<Day>) -> Seq<DayView> {
    v.map(|i: int, d: Day| d@)
}

impl View for Place {
    type V = PlaceView;

    open spec fn view(&self) -> PlaceView {
        PlaceView { id: self.id@, mensa: self.mensa@, days: days_view(self.days@) }
    }
}

impl Clone for Place {
    fn clone(&self) -> (r: Self)
        ensures
            r@ == self@,
    {
        let mut days: Vec<Day> = Vec::new();
        let mut i: usize = 0;
        while i < self.days.len()
            invariant
                i <= self.days.len(),
                days@.len() == i,
                forall|j: int| 0 <= j < i ==> days@[j]@ == self.days@[j]@,
            decreases self.days.len() - i,
        {
            days.push(self.days[i].clone());
            i += 1;
        }
        let r = Place { id: self.id.clone(), mensa: self.mensa.clone(), days };
        proof {
            assert(r@.days =~= self@.days);
        }
        r
    }
}

impl Place {
    /// The days of this place, in the order the document listed them.
    pub fn days(&self) -> (r: &Vec<Day>)
        ensures
            r@.len() == self@.days.len(),
            forall|i: int| 0 <= i < r@.len() ==> r@[i]@ == self@.days[i],
    {
        &self.days
    }
}

/// The root of one decoded fetch: exactly one place.
#[derive(Debug)]
pub struct Plan {
    pub place: Place,
}

#[verifier::ext_equal]
pub ghost struct PlanView {
    pub place: PlaceView,
}

impl View for Plan {
    type V = PlanView;

    open spec fn view(&self) -> PlanView {
        PlanView { place: self.place@ }
    }
}

impl Clone for Plan {
    fn clone(&self) -> (r: Self)
        ensures
            r@ == self@,
    {
        Plan { place: self.place.clone() }
    }
}

/// Whether a day's raw date string resolves to the weekday `w`.
pub open spec fn resolves_to(d: DayView, w: Weekday) -> bool {
    spec_weekday_of(d.date) == Ok::<Weekday, MensaError>(w)
}

/// The last day of `ds` that resolves to `w`, scanning from the end.
pub open spec fn day_for(ds: Seq<DayView>, w: Weekday) -> Option<DayView>
    decreases ds.len(),
{
    if ds.len() == 0 {
        None
    } else if resolves_to(ds.last(), w) {
        Some(ds.last())
    } else {
        day_for(ds.drop_last(), w)
    }
}

/// The days folded into a mapping keyed by resolved weekday, in order, a day
/// resolving to an already-seen weekday overwriting the earlier one; days
/// whose date string resolves to no weekday are skipped.
pub open spec fn weekday_map(ds: Seq<DayView>) -> Map<Weekday, DayView>
    decreases ds.len(),
{
    if ds.len() == 0 {
        Map::empty()
    } else {
        match spec_weekday_of(ds.last().date) {
            Ok(w) => weekday_map(ds.drop_last()).insert(w, ds.last()),
            Err(_) => weekday_map(ds.drop_last()),
        }
    }
}

/// Law: the weekday-keyed fold of the days keeps, for every weekday, exactly
/// the last day in document order that resolves to it.
pub proof fn lemma_weekday_map_is_last(ds: Seq<DayView>, w: Weekday)
    ensures
        weekday_map(ds).contains_key(w) <==> day_for(ds, w) is Some,
        weekday_map(ds).contains_key(w) ==> weekday_map(ds)[w] == day_for(ds, w)->0,
    decreases ds.len(),
{
    if ds.len() > 0 {
        lemma_weekday_map_is_last(ds.drop_last(), w);
    }
}

/// One entry of the weekday-keyed mapping the days of a plan fold into.
#[derive(Debug)]
pub struct DayEntry {
    pub weekday: Weekday,
    pub day: Day,
}

/// No two weekdays share a rank.
proof fn lemma_weekday_rank_injective(a: Weekday, b: Weekday)
    requires
        weekday_rank(a) == weekday_rank(b),
    ensures
        a == b,
{
}

/// The seven weekdays in week order.
fn weekday_list() -> (r: Vec<Weekday>)
    ensures
        r@.len() == 7,
        forall|k: int| 0 <= k < 7 ==> weekday_rank(#[trigger] r@[k]) == k,
{
    let mut v: Vec<Weekday> = Vec::new();
    v.push(Weekday::Mon);
    v.push(Weekday::Tue);
    v.push(Weekday::Wed);
    v.push(Weekday::Thu);
    v.push(Weekday::Fri);
    v.push(Weekday::Sat);
    v.push(Weekday::Sun);
    proof {
        assert(weekday_rank(v@[0]) == 0);
        assert(weekday_rank(v@[1]) == 1);
        assert(weekday_rank(v@[2]) == 2);
        assert(weekday_rank(v@[3]) == 3);
        assert(weekday_rank(v@[4]) == 4);
        assert(weekday_rank(v@[5]) == 5);
        assert(weekday_rank(v@[6]) == 6);
    }
    v
}

impl Plan {
    /// The display name of the plan's place.
    pub fn mensa_name(&self) -> (r: &str)
        ensures
            r@ == self@.place.mensa.name,
    {
        self.place.mensa.name.as_str()
    }

    /// The day of the plan for the requested weekday: the last day in
    /// document order whose date resolves to it, or `None` when no day does.
    pub fn day<'a>(&'a self, day: Weekday) -> (r: Option<&'a Day>)
        ensures
            match r {
                Some(d) => day_for(self@.place.days, day) == Some(d@),
                None => day_for(self@.place.days, day) is None,
            },
    {
        let ghost dv = self@.place.days;
        let ds: &Vec<Day> = &self.place.days;
        let mut i = ds.len();
        proof {
            assert(dv.subrange(0, i as int) =~= dv);
        }
        while i > 0
            invariant
                i <= ds@.len(),
                dv == self@.place.days,
                dv.len() == ds@.len(),
                forall|k: int| 0 <= k < dv.len() ==> dv[k] == #[trigger] ds@[k]@,
                day_for(dv, day) == day_for(dv.subrange(0, i as int), day),
            decreases i,
        {
            i = i - 1;
            let d: &Day = &ds[i];
            let wd = d.weekday();
            proof {
                assert(dv.subrange(0, i + 1).last() == dv[i as int]);
                assert(dv.subrange(0, i + 1).drop_last() =~= dv.subrange(0, i as int));
            }
            match wd {
                Ok(w) => {
                    if w == day {
                        return Some(d);
                    }
                },
                Err(_) => {},
            }
        }
        proof {
            assert(dv.subrange(0, 0) =~= Seq::<DayView>::empty());
        }
        None
    }

    /// The plan's days folded into a weekday-keyed mapping, listed in week
    /// order: for every weekday that some day resolves to, the last such day.
    pub fn days(&self) -> (r: Vec<DayEntry>)
        ensures
            forall|a: int, b: int|
                0 <= a < b < r@.len() ==> weekday_rank(r@[a].weekday) < weekday_rank(
                    r@[b].weekday,
                ),
            forall|i: int|
                0 <= i < r@.len() ==> {
                    &&& weekday_map(self@.place.days).contains_key(#[trigger] r@[i].weekday)
                    &&& weekday_map(self@.place.days)[r@[i].weekday] == r@[i].day@
                },
            forall|w: Weekday|
                #[trigger] weekday_map(self@.place.days).contains_key(w) ==> exists|i: int|
                    0 <= i < r@.len() && r@[i].weekday == w,
{
        let ghost dv = self@.place.days;
        let wds = weekday_list();
        let mut out: Vec<DayEntry> = Vec::new();
        let mut i: usize = 0;
        while i < wds.len()
            invariant
                i <= wds@.len(),
                wds@.len() == 7,
                forall|k: int| 0 <= k < 7 ==> weekday_rank(#[trigger] wds@[k]) == k,
                dv == self@.place.days,
                forall|a: int, b: int|
                    0 <= a < b < out@.len() ==> weekday_rank(out@[a].weekday) < weekday_rank(
                        out@[b].weekday,
                    ),
                forall|j: int| 0 <= j < out@.len() ==> weekday_rank(#[trigger] out@[j].weekday) < i,
                forall|j: int|
                    0 <= j < out@.len() ==> {
                        &&& weekday_map(dv).contains_key(#[trigger] out@[j].weekday)
                        &&& weekday_map(dv)[out@[j].weekday] == out@[j].day@
                    },
                forall|w: Weekday|
                    #[trigger] weekday_map(dv).contains_key(w) && weekday_rank(w) < i ==> exists|
                        j: int,
                    | 0 <= j < out@.len() && out@[j].weekday == w,
            decreases wds@.len() - i,
        {
            let w = wds[i];
            let ghost out0 = out@;
            proof {
                lemma_weekday_map_is_last(dv, w);
            }
            match self.day(w) {
                Some(d) => {
                    out.push(DayEntry { weekday: w, day: d.clone() });
                },
                None => {},
            }
            proof {
                assert forall|w2: Weekday|
                    #[trigger] weekday_map(dv).contains_key(w2) && weekday_rank(w2)
                        < i + 1 implies exists|j: int|
                    0 <= j < out@.len() && out@[j].weekday == w2 by {
                    if weekday_rank(w2) < i as int {
                        let j = choose|j: int| 0 <= j < out0.len() && out0[j].weekday == w2;
                        assert(out@[j].weekday == w2);
                    } else {
                        lemma_weekday_rank_injective(w2, w);
                        assert(out@[out@.len() - 1].weekday == w2);
                    }
                }
            }
            i += 1;
        }
        proof {
            assert forall|w: Weekday| #[trigger] weekday_map(dv).contains_key(w) implies weekday_rank(
                w,
            ) < 7 by {
                match w {
                    Weekday::Mon => {},
                    Weekday::Tue => {},
                    Weekday::Wed => {},
                    Weekday::Thu => {},
                    Weekday::Fri => {},
                    Weekday::Sat => {},
                    Weekday::Sun => {},
                }
            }
        }
        out
    }
}

} // verus!
