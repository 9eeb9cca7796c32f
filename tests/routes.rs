use zetanom::date::Date;
use zetanom::routes::{
    CssHandler, CssResetHandler, FaviconHandler, FoodEditHandler, FoodListHandler,
    FoodNewHandler, FoodViewHandler, LogDeleteHandler, LogNewHandler, LogViewHandler,
    RootHandler, ServingDeleteHandler, ServingNewHandler,
};

#[test]
fn fixed_urls() {
    assert_eq!(CssResetHandler::url(), "/static/reset.css");
    assert_eq!(CssHandler::url(), "/static/style.css");
    assert_eq!(FaviconHandler::url(), "/favicon.ico");
    assert_eq!(RootHandler::url(), "/");
    assert_eq!(FoodListHandler::url(), "/library");
    assert_eq!(FoodNewHandler::url(), "/library/new");
}

#[test]
fn food_urls() {
    assert_eq!(FoodViewHandler::url(42), "/library/42");
    assert_eq!(FoodViewHandler::url(0), "/library/0");
    assert_eq!(FoodViewHandler::url(-3), "/library/-3");
    assert_eq!(FoodViewHandler::url(i64::MIN), format!("/library/{}", i64::MIN));
    assert_eq!(FoodEditHandler::url(1234567890), "/library/1234567890/edit");
    assert_eq!(ServingNewHandler::url(9), "/library/9/servings");
    assert_eq!(ServingDeleteHandler::url(9, 10), "/library/9/servings/10/delete");
}

#[test]
fn log_urls() {
    let d = Date::new(2026, 1, 5).unwrap();
    assert_eq!(LogViewHandler::url(d), "/log/2026-01-05");
    assert_eq!(LogNewHandler::url(d), "/log/2026-01-05/new");
    assert_eq!(LogNewHandler::url_with_food_id(d, 7), "/log/2026-01-05/new/food/7");
    assert_eq!(LogDeleteHandler::url(d, 15), "/log/2026-01-05/entry/15/delete");
}
