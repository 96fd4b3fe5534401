use std::collections::HashMap;
use vstd::prelude::*;

use crate::requirement::{categories, Category, Requirement};

verus! {

/// One course offering of the catalog.
#[derive(Clone, Debug)]
pub struct Class {
    pub code: String,
    pub class_type: String,
    pub count: String,
    pub title: String,
    pub subtitle: String,
    pub special: String,
    pub link: String,
    pub instructor: String,
    pub days: String,
    pub start: String,
    pub end: String,
    pub location: String,
    pub id: String,
    pub units: String,
    pub mode: String,
    pub course_description: String,
    pub class_description: String,
    pub capacity: u32,
    pub enrolled: u32,
    pub waitlist: u32,
    pub waitlist_max: u32,
    pub requirements: Vec<Requirement>,
    pub seats: HashMap<String, u32>,
}

/// The requirement tags of a course, as categories.
pub open spec fn tags_of(c: Class) -> Seq<Category> {
    categories(c.requirements@)
}

} // verus!
