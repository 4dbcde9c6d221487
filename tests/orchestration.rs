use zebar::cli::{open_widgets_by_cli_command, CliCommand, QueryArgs};
use zebar::config::{Config, ConfigChange, ConfigError, WidgetConfig};
use zebar::dispatcher::{reaction_for, Dispatcher, Reaction, RelaunchGate, Signal};
use zebar::monitor_state::{Monitor, MonitorState};
use zebar::placement::{
    bounds_for, resolve_placement, Align, Bounds, Length, MonitorSelection, PlacementError,
    WidgetPlacement,
};
use zebar::providers::{Listen, ProviderKind, ProviderManager};
use zebar::tray::{tray_menu, SysTray, TrayItem};
use zebar::widget_factory::{WidgetError, WidgetFactory};

fn monitor(id: u64, x: i32, width: u32, primary: bool) -> Monitor {
    Monitor { id, x, y: 0, width, height: 1080, scale_percent: 100, is_primary: primary }
}

fn bar_placement(sel: MonitorSelection) -> WidgetPlacement {
    WidgetPlacement {
        monitor_selection: sel,
        horizontal: Align::Start,
        vertical: Align::Start,
        offset_x: 0,
        offset_y: 0,
        width: Length::Percent(100),
        height: Length::Pixels(40),
    }
}

fn widget(path: &str, sel: MonitorSelection, autostart: bool) -> WidgetConfig {
    WidgetConfig {
        path: path.to_string(),
        placement: bar_placement(sel),
        autostart,
        settings: String::from("{}"),
    }
}

fn two_widget_config() -> Config {
    Config::new(
        "/home/u/.glzr/zebar".to_string(),
        "{}".to_string(),
        vec![
            widget("/home/u/.glzr/zebar/bar.json", MonitorSelection::All, true),
            widget("/home/u/.glzr/zebar/menu.json", MonitorSelection::Primary, false),
        ],
    )
    .unwrap()
}

#[test]
fn refresh_with_same_snapshot_signals_nothing() {
    let mut state = MonitorState::new(vec![monitor(1, 0, 1920, true)]);
    assert!(!state.refresh(vec![monitor(1, 0, 1920, true)]));
    assert!(!state.refresh(vec![monitor(1, 0, 1920, true)]));
    assert!(state.refresh(vec![monitor(1, 0, 2560, true)]));
    assert!(state.refresh(vec![monitor(1, 0, 2560, true), monitor(2, 2560, 1920, false)]));
    assert!(!state.refresh(vec![monitor(1, 0, 2560, true), monitor(2, 2560, 1920, false)]));
    assert_eq!(state.monitors().len(), 2);
}

#[test]
fn bounds_follow_anchor_and_size() {
    let m = Monitor { id: 7, x: 100, y: 50, width: 1000, height: 800, scale_percent: 150, is_primary: true };
    let mut p = bar_placement(MonitorSelection::All);
    assert_eq!(bounds_for(&p, &m), Bounds { x: 100, y: 50, width: 1000, height: 40 });
    p.horizontal = Align::Center;
    p.vertical = Align::End;
    p.width = Length::Percent(50);
    p.offset_x = 3;
    p.offset_y = -10;
    assert_eq!(bounds_for(&p, &m), Bounds { x: 353, y: 800, width: 500, height: 40 });
    p.horizontal = Align::End;
    p.width = Length::Pixels(300);
    assert_eq!(bounds_for(&p, &m).x, 803);
}

#[test]
fn placement_selects_monitors() {
    let mons = vec![monitor(1, 0, 1920, false), monitor(2, 1920, 1280, true)];
    let all = resolve_placement(&bar_placement(MonitorSelection::All), &mons).unwrap();
    assert_eq!(all.len(), 2);
    assert_eq!(all[1].monitor.id, 2);
    assert_eq!(all[1].bounds, Bounds { x: 1920, y: 0, width: 1280, height: 40 });
    let primary = resolve_placement(&bar_placement(MonitorSelection::Primary), &mons).unwrap();
    assert_eq!(primary.len(), 1);
    assert_eq!(primary[0].monitor.id, 2);
    let first = resolve_placement(&bar_placement(MonitorSelection::Index(0)), &mons).unwrap();
    assert_eq!(first[0].monitor.id, 1);
    assert_eq!(
        resolve_placement(&bar_placement(MonitorSelection::Index(2)), &mons).unwrap_err(),
        PlacementError::NoMatchingMonitor
    );
    assert!(resolve_placement(&bar_placement(MonitorSelection::All), &vec![]).is_err());
}

#[test]
fn config_paths_and_changes() {
    let config = two_widget_config();
    assert_eq!(config.join_config_dir("bar.json"), "/home/u/.glzr/zebar/bar.json");
    assert_eq!(config.join_config_dir("/etc/w.json"), "/etc/w.json");
    assert_eq!(config.join_config_dir("C:\\w.json"), "C:\\w.json");
    assert_eq!(config.classify_change("/home/u/.glzr/zebar/settings.json"), ConfigChange::Settings);
    assert_eq!(config.classify_change("/home/u/.glzr/zebar/bar.json"), ConfigChange::WidgetConfigs);
    assert_eq!(config.classify_change("/home/u/.glzr/zebar/bar.css"), ConfigChange::Unrelated);
    let trailing = Config::new("/cfg/".to_string(), String::new(), vec![]).unwrap();
    assert_eq!(trailing.join_config_dir("a.json"), "/cfg/a.json");
    let found = config.widget_config_by_path(&"/home/u/.glzr/zebar/menu.json".to_string()).unwrap();
    assert!(!found.autostart);
    assert!(config.widget_config_by_path(&"/home/u/.glzr/zebar/x.json".to_string()).is_none());
}

#[test]
fn duplicate_widget_paths_are_rejected() {
    let r = Config::new(
        "/cfg".to_string(),
        String::new(),
        vec![widget("/cfg/a.json", MonitorSelection::All, true), widget("/cfg/a.json", MonitorSelection::All, false)],
    );
    assert!(matches!(r, Err(ConfigError::DuplicatePath(p)) if p == "/cfg/a.json"));
    let mut config = two_widget_config();
    let r = config.replace_widget_configs(vec![
        widget("/cfg/a.json", MonitorSelection::All, true),
        widget("/cfg/a.json", MonitorSelection::All, true),
    ]);
    assert!(r.is_err());
    assert_eq!(config.widget_configs().len(), 2);
}

#[test]
fn open_assigns_placement_targets() {
    let monitors = MonitorState::new(vec![monitor(1, 0, 1920, true), monitor(2, 1920, 1280, false)]);
    let mut factory = WidgetFactory::new();
    let c = widget("/cfg/bar.json", MonitorSelection::All, true);
    let opened = factory.open(&c, &monitors).unwrap();
    assert_eq!(opened.len(), 2);
    assert_eq!(opened[0].id, 0);
    assert_eq!(opened[1].id, 1);
    assert_eq!(opened[1].monitor.id, 2);
    assert_eq!(opened[1].bounds, Bounds { x: 1920, y: 0, width: 1280, height: 40 });
    // Opening the same definition again makes new instances.
    let again = factory.open(&c, &monitors).unwrap();
    assert_eq!(again[0].id, 2);
    assert_eq!(factory.widgets().len(), 4);
    let bad = widget("/cfg/x.json", MonitorSelection::Index(5), true);
    assert_eq!(
        factory.open(&bad, &monitors).unwrap_err(),
        WidgetError::Placement(PlacementError::NoMatchingMonitor)
    );
    assert_eq!(factory.widgets().len(), 4);
}

#[test]
fn close_removes_one_instance() {
    let monitors = MonitorState::new(vec![monitor(1, 0, 1920, true)]);
    let mut factory = WidgetFactory::new();
    factory.open(&widget("/cfg/a.json", MonitorSelection::All, true), &monitors).unwrap();
    factory.open(&widget("/cfg/b.json", MonitorSelection::All, true), &monitors).unwrap();
    let closed = factory.close(0).unwrap();
    assert_eq!(closed.config.path, "/cfg/a.json");
    assert_eq!(factory.widgets().len(), 1);
    assert_eq!(factory.widgets()[0].id, 1);
    assert_eq!(factory.close(0).unwrap_err(), WidgetError::NotFound(0));
    assert_eq!(factory.close(42).unwrap_err(), WidgetError::NotFound(42));
}

#[test]
fn relaunch_twice_keeps_the_same_configs() {
    let config = two_widget_config();
    let monitors = MonitorState::new(vec![monitor(1, 0, 1920, true), monitor(2, 1920, 1280, false)]);
    let mut factory = WidgetFactory::new();
    for c in config.widget_configs() {
        factory.open(c, &monitors).unwrap();
    }
    assert_eq!(factory.widgets().len(), 3);
    let first = factory.relaunch_all(&config, &monitors);
    assert_eq!(first.closed.len(), 3);
    assert!(first.failures.is_empty());
    let mut paths_once: Vec<String> = factory.widgets().iter().map(|w| w.config.path.clone()).collect();
    let ids_once: Vec<u64> = factory.widgets().iter().map(|w| w.id).collect();
    assert!(ids_once.iter().all(|id| *id >= 3));
    factory.relaunch_all(&config, &monitors);
    let mut paths_twice: Vec<String> = factory.widgets().iter().map(|w| w.config.path.clone()).collect();
    let ids_twice: Vec<u64> = factory.widgets().iter().map(|w| w.id).collect();
    paths_once.sort();
    paths_once.dedup();
    paths_twice.sort();
    paths_twice.dedup();
    assert_eq!(paths_once, paths_twice);
    assert!(ids_twice.iter().all(|id| !ids_once.contains(id)));
    let mut all = ids_twice.clone();
    all.dedup();
    assert_eq!(all.len(), ids_twice.len());
}

#[test]
fn relaunch_drops_what_no_longer_places() {
    let config = two_widget_config();
    let monitors = MonitorState::new(vec![monitor(1, 0, 1920, true)]);
    let mut factory = WidgetFactory::new();
    for c in config.widget_configs() {
        factory.open(c, &monitors).unwrap();
    }
    // The only monitor is no longer primary: the menu has nowhere to go.
    let moved = MonitorState::new(vec![monitor(1, 0, 1920, false)]);
    let report = factory.relaunch_all(&config, &moved);
    assert_eq!(report.closed.len(), 2);
    assert_eq!(report.failures.len(), 1);
    assert_eq!(report.failures[0].path, "/home/u/.glzr/zebar/menu.json");
    assert_eq!(factory.widgets().len(), 1);
    assert_eq!(factory.widgets()[0].config.path, "/home/u/.glzr/zebar/bar.json");
}

#[test]
fn unlisten_stops_delivery() {
    let mut providers = ProviderManager::new();
    let t = match providers.listen(5, ProviderKind::Cpu, 111).unwrap() {
        Listen::Started(t) => t,
        other => panic!("unexpected {:?}", other),
    };
    assert_eq!(providers.listen(5, ProviderKind::Cpu, 111).unwrap(), Listen::AlreadyListening(t));
    let u = match providers.listen(5, ProviderKind::Cpu, 222).unwrap() {
        Listen::Started(u) => u,
        other => panic!("unexpected {:?}", other),
    };
    assert_ne!(t, u);
    assert!(providers.should_deliver(5, ProviderKind::Cpu, 111, t));
    assert!(!providers.should_deliver(5, ProviderKind::Cpu, 111, u));
    let removed = providers.unlisten(5, ProviderKind::Cpu);
    assert_eq!(removed.len(), 2);
    assert!(!providers.should_deliver(5, ProviderKind::Cpu, 111, t));
    assert!(!providers.should_deliver(5, ProviderKind::Cpu, 222, u));
    // A new subscription on the same key gets a new task; the old one stays cut off.
    let v = match providers.listen(5, ProviderKind::Cpu, 111).unwrap() {
        Listen::Started(v) => v,
        other => panic!("unexpected {:?}", other),
    };
    assert!(v != t && v != u);
    assert!(!providers.should_deliver(5, ProviderKind::Cpu, 111, t));
    assert!(providers.should_deliver(5, ProviderKind::Cpu, 111, v));
}

#[test]
fn closing_a_widget_ends_its_subscriptions() {
    let mut providers = ProviderManager::new();
    providers.listen(1, ProviderKind::Cpu, 1).unwrap();
    providers.listen(1, ProviderKind::Memory, 1).unwrap();
    providers.listen(2, ProviderKind::Cpu, 1).unwrap();
    let stopped = providers.close_widget(1);
    assert_eq!(stopped.len(), 2);
    assert!(stopped.iter().all(|s| s.widget_id == 1));
    assert_eq!(providers.subscriptions_vec().len(), 1);
    assert_eq!(providers.subscriptions_vec()[0].widget_id, 2);
    assert!(providers.close_widget(1).is_empty());
}

#[test]
fn forwarded_open_command_adds_one_widget() {
    let config = two_widget_config();
    let monitors = MonitorState::new(vec![monitor(1, 0, 1920, true)]);
    let mut factory = WidgetFactory::new();
    let startup = CliCommand::Startup { config_dir: None };
    open_widgets_by_cli_command(&startup, &config, &mut factory, &monitors).unwrap();
    let before = factory.widgets().len();
    let forwarded = CliCommand::OpenWidgetDefault { config_path: "bar.json".to_string(), config_dir: None };
    assert!(forwarded.opens_widgets());
    let batch = open_widgets_by_cli_command(&forwarded, &config, &mut factory, &monitors).unwrap();
    assert_eq!(batch.opened.len(), 1);
    assert_eq!(batch.opened[0].config.path, "/home/u/.glzr/zebar/bar.json");
    assert_eq!(factory.widgets().len(), before + 1);
    // An empty forwarded command does nothing.
    let batch = open_widgets_by_cli_command(&CliCommand::Empty, &config, &mut factory, &monitors).unwrap();
    assert!(batch.opened.is_empty());
    assert_eq!(factory.widgets().len(), before + 1);
    let missing = CliCommand::OpenWidgetDefault { config_path: "nope.json".to_string(), config_dir: None };
    match open_widgets_by_cli_command(&missing, &config, &mut factory, &monitors) {
        Err(ConfigError::NotFound(p)) => assert_eq!(p, "/home/u/.glzr/zebar/nope.json"),
        other => panic!("unexpected {:?}", other.map(|b| b.opened.len())),
    }
}

#[test]
fn startup_opens_only_autostart_widgets() {
    let config = two_widget_config();
    let monitors = MonitorState::new(vec![monitor(1, 0, 1920, true)]);
    let mut factory = WidgetFactory::new();
    let cmd = CliCommand::Startup { config_dir: Some("/home/u/.glzr/zebar".to_string()) };
    assert_eq!(cmd.config_dir_override(), Some("/home/u/.glzr/zebar".to_string()));
    let batch = open_widgets_by_cli_command(&cmd, &config, &mut factory, &monitors).unwrap();
    assert_eq!(batch.opened.len(), 1);
    assert!(batch.failures.is_empty());
    assert_eq!(factory.widgets().len(), 1);
    assert_eq!(factory.widgets()[0].config.path, "/home/u/.glzr/zebar/bar.json");
    let query = CliCommand::Query(QueryArgs::Monitors);
    assert!(!query.opens_widgets());
    assert_eq!(query.config_dir_override(), None);
}

#[test]
fn edited_widget_file_is_relaunched_with_new_contents() {
    let mut config = two_widget_config();
    let monitors = MonitorState::new(vec![monitor(1, 0, 1920, true)]);
    let mut factory = WidgetFactory::new();
    let cmd = CliCommand::Startup { config_dir: None };
    open_widgets_by_cli_command(&cmd, &config, &mut factory, &monitors).unwrap();
    assert_eq!(factory.widgets()[0].bounds.height, 40);

    let change = config.classify_change("/home/u/.glzr/zebar/bar.json");
    assert_eq!(change, ConfigChange::WidgetConfigs);
    let mut edited = widget("/home/u/.glzr/zebar/bar.json", MonitorSelection::All, true);
    edited.placement.height = Length::Pixels(60);
    config
        .replace_widget_configs(vec![edited, widget("/home/u/.glzr/zebar/menu.json", MonitorSelection::Primary, false)])
        .unwrap();

    let mut dispatcher = Dispatcher::new();
    assert_eq!(dispatcher.on_signal(Signal::WidgetConfigsChanged), Some(Reaction::RelaunchAll));
    let report = factory.relaunch_all(&config, &monitors);
    assert_eq!(dispatcher.on_relaunch_done(), None);
    assert_eq!(report.closed.len(), 1);
    assert_eq!(factory.widgets().len(), 1);
    assert_eq!(factory.widgets()[0].config.path, "/home/u/.glzr/zebar/bar.json");
    assert_eq!(factory.widgets()[0].bounds.height, 60);
}

#[test]
fn signals_map_to_reactions() {
    assert_eq!(reaction_for(Signal::WidgetOpened), Reaction::RefreshTray);
    assert_eq!(reaction_for(Signal::WidgetClosed), Reaction::RefreshTray);
    assert_eq!(reaction_for(Signal::SettingsChanged), Reaction::RefreshTray);
    assert_eq!(reaction_for(Signal::MonitorsChanged), Reaction::RelaunchAll);
    assert_eq!(reaction_for(Signal::WidgetConfigsChanged), Reaction::RelaunchAll);
}

#[test]
fn relaunch_requests_are_coalesced() {
    let mut gate = RelaunchGate::new();
    assert!(gate.request());
    assert!(!gate.request());
    assert!(!gate.request());
    assert!(gate.finish());
    assert!(!gate.finish());
    assert!(gate.request());

    let mut d = Dispatcher::new();
    assert_eq!(d.on_signal(Signal::MonitorsChanged), Some(Reaction::RelaunchAll));
    assert_eq!(d.on_signal(Signal::WidgetConfigsChanged), None);
    assert_eq!(d.on_signal(Signal::WidgetOpened), Some(Reaction::RefreshTray));
    assert_eq!(d.on_relaunch_done(), Some(Reaction::RelaunchAll));
    assert_eq!(d.on_relaunch_done(), None);
}

#[test]
fn tray_menu_reflects_open_widgets() {
    let config = two_widget_config();
    let monitors = MonitorState::new(vec![monitor(1, 0, 1920, true)]);
    let mut factory = WidgetFactory::new();
    factory.open(&config.widget_configs()[0], &monitors).unwrap();
    let menu = tray_menu(&config, &factory);
    assert_eq!(
        menu,
        vec![
            TrayItem::Widget { path: "/home/u/.glzr/zebar/bar.json".to_string(), open: true },
            TrayItem::Widget { path: "/home/u/.glzr/zebar/menu.json".to_string(), open: false },
            TrayItem::OpenConfigFolder,
            TrayItem::Quit,
        ]
    );
    let mut tray = SysTray::new(&config, &factory);
    tray.refresh(&config, &factory);
    tray.refresh(&config, &factory);
    assert_eq!(tray.items(), &menu);
    factory.close(0).unwrap();
    tray.refresh(&config, &factory);
    assert_eq!(tray.items()[0], TrayItem::Widget { path: "/home/u/.glzr/zebar/bar.json".to_string(), open: false });
}

#[test]
fn monitors_render_as_json() {
    let state = MonitorState::new(vec![
        Monitor { id: 1, x: -1920, y: 0, width: 1920, height: 1080, scale_percent: 100, is_primary: false },
        Monitor { id: 20, x: 0, y: 0, width: 2560, height: 1440, scale_percent: 150, is_primary: true },
    ]);
    assert_eq!(
        state.output_str(),
        "[{\"id\":1,\"x\":-1920,\"y\":0,\"width\":1920,\"height\":1080,\"scalePercent\":100,\"isPrimary\":false},\
{\"id\":20,\"x\":0,\"y\":0,\"width\":2560,\"height\":1440,\"scalePercent\":150,\"isPrimary\":true}]"
    );
    assert_eq!(MonitorState::new(vec![]).output_str(), "[]");
}

#[test]
fn close_by_path_removes_every_instance_of_a_definition() {
    let monitors = MonitorState::new(vec![monitor(1, 0, 1920, true), monitor(2, 1920, 1920, false)]);
    let mut factory = WidgetFactory::new();
    factory.open(&widget("/cfg/a.json", MonitorSelection::All, true), &monitors).unwrap();
    factory.open(&widget("/cfg/b.json", MonitorSelection::All, true), &monitors).unwrap();
    let closed = factory.close_by_path(&"/cfg/a.json".to_string());
    assert_eq!(closed.iter().map(|w| w.id).collect::<Vec<u64>>(), vec![0, 1]);
    assert_eq!(factory.widgets().iter().map(|w| w.id).collect::<Vec<u64>>(), vec![2, 3]);
    assert!(factory.close_by_path(&"/cfg/a.json".to_string()).is_empty());
    let next = factory.open(&widget("/cfg/a.json", MonitorSelection::Index(1), true), &monitors).unwrap();
    assert_eq!(next[0].id, 4);
    assert_eq!(factory.next_id(), 5);
}
