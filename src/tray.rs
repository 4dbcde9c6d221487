//! Contents of the tray menu, derived from the configuration and the
//! registry.

use vstd::prelude::*;
use crate::config::{Config, WidgetConfig};
use crate::widget_factory::{OpenWidget, WidgetFactory, is_path_open, open_paths};

verus! {

/// One entry of the tray menu.
#[derive(Clone, Debug, PartialEq, Eq)]
pub enum TrayItem {
    /// Toggles the widget defined at `path`; `open` tells whether it shows.
    Widget { path: String, open: bool },
    OpenConfigFolder,
    Quit,
}

/// One toggle per loaded definition, in load order, then the global actions.
pub open spec fn menu_spec(ws: Seq<WidgetConfig>, entries: Seq<OpenWidget>) -> Seq<TrayItem> {
    Seq::new(
        ws.len(),
        |i: int| TrayItem::Widget { path: ws[i].path, open: open_paths(entries).contains(ws[i].path@) },
    ).push(TrayItem::OpenConfigFolder).push(TrayItem::Quit)
}

/// Computes the tray menu from the current state.
pub fn tray_menu(config: &Config, factory: &WidgetFactory) -> (r: Vec<TrayItem>)
    ensures
        r@ == menu_spec(config.widgets(), factory.entries()),
{
    let ws = config.widget_configs();
    let open = factory.widgets();
    let mut items: Vec<TrayItem> = Vec::new();
    let mut i: usize = 0;
    while i < ws.len()
        invariant
            i <= ws.len(),
            items@ == Seq::new(
                i as nat,
                |k: int| TrayItem::Widget { path: ws@[k].path, open: open_paths(open@).contains(ws@[k].path@) },
            ),
        decreases ws.len() - i,
    {
        let is_open = is_path_open(open, &ws[i].path);
        items.push(TrayItem::Widget { path: ws[i].path.clone(), open: is_open });
        i += 1;
        assert(items@ =~= Seq::new(
            i as nat,
            |k: int| TrayItem::Widget { path: ws@[k].path, open: open_paths(open@).contains(ws@[k].path@) },
        ));
    }
    items.push(TrayItem::OpenConfigFolder);
    items.push(TrayItem::Quit);
    items
}

/// The tray menu as last shown.
pub struct SysTray {
    items: Vec<TrayItem>,
}

impl SysTray {
    pub closed spec fn view_items(&self) -> Seq<TrayItem> {
        self.items@
    }

    pub fn new(config: &Config, factory: &WidgetFactory) -> (r: Self)
        ensures
            r.view_items() == menu_spec(config.widgets(), factory.entries()),
    {
        SysTray { items: tray_menu(config, factory) }
    }

    pub fn items(&self) -> (r: &Vec<TrayItem>)
        ensures
            r@ == self.view_items(),
    {
        &self.items
    }

    /// Recomputes the menu; the result depends on the current state alone.
    pub fn refresh(&mut self, config: &Config, factory: &WidgetFactory)
        ensures
            final(self).view_items() == menu_spec(config.widgets(), factory.entries()),
    {
        self.items = tray_menu(config, factory);
    }
}

} // verus!
