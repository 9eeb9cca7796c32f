use crate::date::Date;
use crate::db::{EntryId, FoodId, ServingId};
use crate::text::{push_signed_decimal, signed_decimal};
use vstd::prelude::*;
use vstd::string::*;

verus! {

/// The page of the reset style sheet.
pub struct CssResetHandler {}

/// The page of the style sheet.
pub struct CssHandler {}

/// The page of the site icon.
pub struct FaviconHandler {}

/// The root page, which leads to today's log.
pub struct RootHandler {}

/// The page that lists the food library.
pub struct FoodListHandler {}

/// The page that creates a food.
pub struct FoodNewHandler {}

/// The page of one food.
pub struct FoodViewHandler {}

/// The page that edits a food.
pub struct FoodEditHandler {}

/// The action that adds a serving size to a food.
pub struct ServingNewHandler {}

/// The action that deletes a serving size.
pub struct ServingDeleteHandler {}

/// The page of a day's log.
pub struct LogViewHandler {}

/// The page that logs a food on a day.
pub struct LogNewHandler {}

/// The action that deletes a log entry.
pub struct LogDeleteHandler {}

/// The text of `s` followed by the decimal text of `n`.
fn with_number(s: &str, n: i64) -> (r: String)
    ensures
        r@ == s@ + signed_decimal(n as int),
{
    let mut out = String::from_str(s);
    push_signed_decimal(&mut out, n);
    out
}

/// `/library/{food_id}`.
pub open spec fn food_path(food_id: FoodId) -> Seq<char> {
    "/library/"@ + signed_decimal(food_id as int)
}

/// `/log/{date}`.
pub open spec fn log_path(date: Date) -> Seq<char> {
    "/log/"@ + date.iso()
}

impl CssResetHandler {
    pub fn url() -> (r: &'static str)
        ensures
            r@ == "/static/reset.css"@,
    {
        "/static/reset.css"
    }
}

impl CssHandler {
    pub fn url() -> (r: &'static str)
        ensures
            r@ == "/static/style.css"@,
    {
        "/static/style.css"
    }
}

impl FaviconHandler {
    pub fn url() -> (r: &'static str)
        ensures
            r@ == "/favicon.ico"@,
    {
        "/favicon.ico"
    }
}

impl RootHandler {
    pub fn url() -> (r: &'static str)
        ensures
            r@ == "/"@,
    {
        "/"
    }
}

impl FoodListHandler {
    pub fn url() -> (r: &'static str)
        ensures
            r@ == "/library"@,
    {
        "/library"
    }
}

impl FoodNewHandler {
    pub fn url() -> (r: &'static str)
        ensures
            r@ == "/library/new"@,
    {
        "/library/new"
    }
}

impl FoodViewHandler {
    pub fn url(food_id: FoodId) -> (r: String)
        ensures
            r@ == food_path(food_id),
    {
        with_number("/library/", food_id)
    }
}

impl FoodEditHandler {
    pub fn url(food_id: FoodId) -> (r: String)
        ensures
            r@ == food_path(food_id) + "/edit"@,
    {
        let s = with_number("/library/", food_id);
        s.concat("/edit")
    }
}

impl ServingNewHandler {
    pub fn url(food_id: FoodId) -> (r: String)
        ensures
            r@ == food_path(food_id) + "/servings"@,
    {
        let s = with_number("/library/", food_id);
        s.concat("/servings")
    }
}

impl ServingDeleteHandler {
    pub fn url(food_id: FoodId, serving_id: ServingId) -> (r: String)
        ensures
            r@ == food_path(food_id) + "/servings/"@ + signed_decimal(serving_id as int)
                + "/delete"@,
    {
        let mut s = with_number("/library/", food_id);
        s.append("/servings/");
        push_signed_decimal(&mut s, serving_id);
        s.concat("/delete")
    }
}

impl LogViewHandler {
    pub fn url(date: Date) -> (r: String)
        requires
            date.wf(),
        ensures
            r@ == log_path(date),
    {
        let s = String::from_str("/log/");
        let d = date.to_iso_string();
        s.concat(d.as_str())
    }
}

impl LogNewHandler {
    pub fn url(date: Date) -> (r: String)
        requires
            date.wf(),
        ensures
            r@ == log_path(date) + "/new"@,
    {
        let s = LogViewHandler::url(date);
        s.concat("/new")
    }

    pub fn url_with_food_id(date: Date, food_id: FoodId) -> (r: String)
        requires
            date.wf(),
        ensures
            r@ == log_path(date) + "/new/food/"@ + signed_decimal(food_id as int),
    {
        let mut s = LogViewHandler::url(date);
        s.append("/new/food/");
        push_signed_decimal(&mut s, food_id);
        s
    }
}

impl LogDeleteHandler {
    pub fn url(date: Date, entry_id: EntryId) -> (r: String)
        requires
            date.wf(),
        ensures
            r@ == log_path(date) + "/entry/"@ + signed_decimal(entry_id as int) + "/delete"@,
    {
        let mut s = LogViewHandler::url(date);
        s.append("/entry/");
        push_signed_decimal(&mut s, entry_id);
        s.concat("/delete")
    }
}

} // verus!
