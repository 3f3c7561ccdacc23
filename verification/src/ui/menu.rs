//! Top-level menu items.

use vstd::prelude::*;

verus! {

/// A single selectable entry in the main TUI menu.
#[derive(Debug, Clone, Copy, PartialEq, Eq, Structural)]
pub enum MenuItem {
    /// OpenCode Serve (starts or stops, by its state).
    OcServe,
    /// Rathole tunnel (starts or stops, by its state).
    Rathole,
    /// OC projects (the pages for choosing a project and attaching).
    OcProjects,
    /// Upgrade OpenCode + oh-my-openagent.
    UpgradeOpenCodeAndOmo,
    /// Exit.
    Exit,
}

impl MenuItem {
    /// Return all menu items in display order.
    #[must_use]
    pub fn all() -> (r: Vec<MenuItem>)
        ensures
            r@ == seq![
                MenuItem::OcServe,
                MenuItem::Rathole,
                MenuItem::OcProjects,
                MenuItem::UpgradeOpenCodeAndOmo,
                MenuItem::Exit,
            ],
    {
        vec![
            MenuItem::OcServe,
            MenuItem::Rathole,
            MenuItem::OcProjects,
            MenuItem::UpgradeOpenCodeAndOmo,
            MenuItem::Exit,
        ]
    }
}

/// The items of the first column: services and system.
pub open spec fn main_items() -> Seq<MenuItem> {
    seq![
        MenuItem::OcServe,
        MenuItem::Rathole,
        MenuItem::UpgradeOpenCodeAndOmo,
        MenuItem::Exit,
    ]
}

/// The items of the second column: projects.
pub open spec fn projects_items() -> Seq<MenuItem> {
    seq![MenuItem::OcProjects]
}

/// The items of the first column.
pub fn main_column() -> (r: Vec<MenuItem>)
    ensures
        r@ == main_items(),
{
    vec![
        MenuItem::OcServe,
        MenuItem::Rathole,
        MenuItem::UpgradeOpenCodeAndOmo,
        MenuItem::Exit,
    ]
}

/// The items of the second column.
pub fn projects_column() -> (r: Vec<MenuItem>)
    ensures
        r@ == projects_items(),
{
    vec![MenuItem::OcProjects]
}

/// What a selected [`MenuItem`] should come to in terms of side effects.
#[derive(Debug, Clone, Copy, PartialEq, Eq, Structural)]
pub enum MenuAction {
    /// Toggle OpenCode Serve: stop it if it runs, else ask for a port.
    ToggleOcServe,
    /// Toggle Rathole: stop it if it runs, else start it.
    ToggleRathole,
    /// Enter the project pages.
    EnterProjects,
    /// Run the upgrade flow.
    Upgrade,
    /// Exit the TUI cleanly.
    Exit,
}

impl From<MenuItem> for MenuAction {
    fn from(item: MenuItem) -> (r: Self) {
        match item {
            MenuItem::OcServe => MenuAction::ToggleOcServe,
            MenuItem::Rathole => MenuAction::ToggleRathole,
            MenuItem::OcProjects => MenuAction::EnterProjects,
            MenuItem::UpgradeOpenCodeAndOmo => MenuAction::Upgrade,
            MenuItem::Exit => MenuAction::Exit,
        }
    }
}

impl vstd::std_specs::convert::FromSpecImpl<MenuItem> for MenuAction {
    open spec fn obeys_from_spec() -> bool {
        true
    }

    open spec fn from_spec(item: MenuItem) -> MenuAction {
        match item {
            MenuItem::OcServe => MenuAction::ToggleOcServe,
            MenuItem::Rathole => MenuAction::ToggleRathole,
            MenuItem::OcProjects => MenuAction::EnterProjects,
            MenuItem::UpgradeOpenCodeAndOmo => MenuAction::Upgrade,
            MenuItem::Exit => MenuAction::Exit,
        }
    }
}

/// The two columns together offer every item, and no item twice.
pub proof fn law_columns_offer_every_item(item: MenuItem)
    ensures
        (main_items() + projects_items()).contains(item),
        (main_items() + projects_items()).no_duplicates(),
{
    let all = main_items() + projects_items();
    assert(all[0] == MenuItem::OcServe);
    assert(all[1] == MenuItem::Rathole);
    assert(all[2] == MenuItem::UpgradeOpenCodeAndOmo);
    assert(all[3] == MenuItem::Exit);
    assert(all[4] == MenuItem::OcProjects);
}

/// The services come first, then the system's items; the projects have a column
/// of their own.
pub proof fn law_columns_in_display_order()
    ensures
        main_items().len() == 4,
        main_items()[0] is OcServe,
        main_items()[1] is Rathole,
        main_items()[2] is UpgradeOpenCodeAndOmo,
        main_items()[3] is Exit,
        projects_items().len() == 1,
        projects_items()[0] is OcProjects,
{
}

/// Every item stands for an action of its own.
pub proof fn law_items_stand_for_their_actions(item: MenuItem)
    ensures
        ({
            let action = <MenuAction as vstd::std_specs::convert::FromSpec<MenuItem>>::from_spec(
                item,
            );
            &&& item is OcServe <==> action is ToggleOcServe
            &&& item is Rathole <==> action is ToggleRathole
            &&& item is OcProjects <==> action is EnterProjects
            &&& item is UpgradeOpenCodeAndOmo <==> action is Upgrade
            &&& item is Exit <==> action is Exit
        }),
{
}

} // verus!
