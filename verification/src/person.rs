//! The value record for one individual, and the errors a build can surface.

use vstd::prelude::*;
use vstd::string::StringExecFns;

verus! {

/// Mathematical view of a [`Person`]: every free-text field as a sequence of
/// characters, and the generation as an unbounded integer.
pub ghost struct PersonView {
    pub generation: int,
    pub name: Seq<char>,
    pub birthdate: Seq<char>,
    pub last_name: Seq<char>,
    pub address: Seq<char>,
    pub city: Seq<char>,
    pub landline: Seq<char>,
    pub mobile_number: Seq<char>,
    pub email: Seq<char>,
}

/// One individual of the genealogy.  Generation `-1` is reserved for the two
/// root ancestors, `0` for the first generation below them, increasing
/// downward.  Absent values are empty strings, never null.
#[derive(Debug)]
pub struct Person {
    pub generation: i32,
    pub name: String,
    pub birthdate: String,
    pub last_name: String,
    pub address: String,
    pub city: String,
    pub landline: String,
    pub mobile_number: String,
    pub email: String,
}

impl View for Person {
    type V = PersonView;

    open spec fn view(&self) -> PersonView {
        PersonView {
            generation: self.generation as int,
            name: self.name@,
            birthdate: self.birthdate@,
            last_name: self.last_name@,
            address: self.address@,
            city: self.city@,
            landline: self.landline@,
            mobile_number: self.mobile_number@,
            email: self.email@,
        }
    }
}

/// The view a row of eight cells takes when it is read as a person of the
/// given generation: the cells fill the eight free-text fields in order.
pub open spec fn person_of_cells(cells: Seq<Seq<char>>, generation: int) -> PersonView {
    PersonView {
        generation: generation,
        name: cells[0],
        birthdate: cells[1],
        last_name: cells[2],
        address: cells[3],
        city: cells[4],
        landline: cells[5],
        mobile_number: cells[6],
        email: cells[7],
    }
}

impl Clone for Person {
    fn clone(&self) -> (res: Person)
        ensures
            res == *self,
    {
        Person {
            generation: self.generation,
            name: self.name.clone(),
            birthdate: self.birthdate.clone(),
            last_name: self.last_name.clone(),
            address: self.address.clone(),
            city: self.city.clone(),
            landline: self.landline.clone(),
            mobile_number: self.mobile_number.clone(),
            email: self.email.clone(),
        }
    }
}

impl Person {
    /// Builds a person from the eight trailing cells of a data row.  A row
    /// that does not decompose into exactly eight fields is rejected.
    pub fn new(info: Vec<String>, generation: i32) -> (r: Result<Person, &'static str>)
        ensures
            info@.len() == 8 ==> (r matches Ok(p) && p@ == person_of_cells(info.deep_view(), generation as int)),
            info@.len() != 8 ==> r is Err,
    {
        if info.len() != 8 {
            return Err("Expected exactly 8 elements");
        }
        let p = Person {
            generation,
            name: info[0].clone(),
            birthdate: info[1].clone(),
            last_name: info[2].clone(),
            address: info[3].clone(),
            city: info[4].clone(),
            landline: info[5].clone(),
            mobile_number: info[6].clone(),
            email: info[7].clone(),
        };
        Ok(p)
    }

    /// A placeholder person, every field filled with an instruction to the
    /// editor of the sheet.
    pub fn default() -> (r: Person)
        ensures
            r@.generation == 0,
            r@.name == "insert_name"@,
            r@.birthdate == "insert birthdate"@,
            r@.last_name == "insert_lastname"@,
            r@.address == "address here"@,
            r@.city == "city here"@,
            r@.landline == "landline here"@,
            r@.mobile_number == "mobile number here"@,
            r@.email == "email here"@,
    {
        Person {
            generation: 0,
            name: String::from_str("insert_name"),
            birthdate: String::from_str("insert birthdate"),
            last_name: String::from_str("insert_lastname"),
            address: String::from_str("address here"),
            city: String::from_str("city here"),
            landline: String::from_str("landline here"),
            mobile_number: String::from_str("mobile number here"),
            email: String::from_str("email here"),
        }
    }
}

/// The views of a sequence of persons, element by element.
pub open spec fn person_views(s: Seq<Person>) -> Seq<PersonView> {
    s.map_values(|p: Person| p@)
}

/// Identity of one configured root ancestor: a name, a life-dates string and
/// a last name, as the configuration collaborator supplies them.
pub ghost struct RootInfoView {
    pub name: Seq<char>,
    pub life: Seq<char>,
    pub last_name: Seq<char>,
}

/// Identity fields for one of the two root ancestors, supplied once per run.
#[derive(Debug)]
pub struct RootInfo {
    pub name: String,
    pub life: String,
    pub last_name: String,
}

impl View for RootInfo {
    type V = RootInfoView;

    open spec fn view(&self) -> RootInfoView {
        RootInfoView { name: self.name@, life: self.life@, last_name: self.last_name@ }
    }
}

/// The person a root-ancestor configuration denotes: generation `-1`, the
/// life-dates string in the birthdate field, all other fields empty.
pub open spec fn root_person(r: RootInfoView) -> PersonView {
    PersonView {
        generation: -1,
        name: r.name,
        birthdate: r.life,
        last_name: r.last_name,
        address: Seq::empty(),
        city: Seq::empty(),
        landline: Seq::empty(),
        mobile_number: Seq::empty(),
        email: Seq::empty(),
    }
}

/// A fatal condition of one build.  Every fatal condition aborts the whole
/// build; no partial graph is ever handed out.
#[derive(Debug, Clone, Copy, PartialEq, Eq, Structural)]
pub enum BuildError {
    /// A data row did not decompose into the expected eight trailing fields;
    /// the payload is the position of the row among all grouped rows.
    MalformedRow(usize),
    /// An ancestor-resolution walk ran out of ancestors before it had taken
    /// all its steps; the payload is the position of the offending row.
    TopologyError(usize),
    /// A root ancestor's identity fields were absent.
    MissingConfiguration,
}

} // verus!
