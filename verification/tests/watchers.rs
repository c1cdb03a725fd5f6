//! The watchers of menus, and the loads of their layouts.
use async_channel::{bounded, Receiver};
use std::future::Future;
use xbar::dbus::watchers::{
    allocate_menu_watcher_generation, cancel_watchers_for_unique_owner, dbus_menu_endpoint_key,
    end_menu_watcher, finish_layout_load, layout_finished, layout_requested, watcher_installed,
    LayoutRequest, LayoutStep, MenuWatcherControl, MenuWatchers,
};
use xbar::domain::event::Event;
use xbar::domain::menu::{MenuEndpoint, MenuSource};
use xbar::domain::state::WindowId;

fn endpoint(service: &str, path: &str) -> MenuEndpoint {
    MenuEndpoint {
        service: service.into(),
        object_path: path.into(),
    }
}

async fn cancellable_layout_load<L, T, E>(load: L, cancel: Receiver<()>) -> Option<Result<T, E>>
where
    L: Future<Output = Result<T, E>>,
{
    futures_lite::future::race(async { Some(load.await) }, async {
        let _ = cancel.recv().await;
        None
    })
    .await
}

fn is_empty(watchers: &MenuWatchers) -> bool {
    watchers.keys().is_empty()
}

#[test]
fn unregister_cancels_pending_layout_and_late_completion_cannot_reinsert_watcher() {
    let endpoint = endpoint(":1.7", "/menu");
    let (signal_cancel, signal_receiver) = bounded(1);
    let (load_sender, load_cancel) = bounded(1);
    let mut watchers = MenuWatchers::new();
    let mut control = MenuWatcherControl::new(10);
    assert_eq!(control.start_load(7), None);
    watchers.insert(
        format!("{}\0{}", endpoint.service, endpoint.object_path),
        control,
    );

    let (ready_sender, ready_receiver) = bounded(1);
    let pending_load = async move {
        ready_sender.send(()).await.expect("ready receiver");
        std::future::pending::<Result<(), String>>().await
    };
    let cancellation = async {
        ready_receiver.recv().await.expect("pending load ready");
        assert!(end_menu_watcher(&mut watchers, &endpoint));
        signal_cancel.try_send(()).expect("signal watcher");
        load_sender.try_send(()).expect("pending load");
    };
    let (result, ()) = zbus::block_on(futures_lite::future::zip(
        cancellable_layout_load(pending_load, load_cancel),
        cancellation,
    ));
    assert!(result.is_none());
    assert!(is_empty(&watchers));
    assert!(signal_receiver.try_recv().is_ok());

    assert!(!finish_layout_load(&mut watchers, &endpoint, 7));
    assert!(is_empty(&watchers));
}

#[test]
fn owner_disappearance_cancels_pending_layout_and_late_completion_cannot_reinsert_watcher() {
    let endpoint = endpoint(":1.8", "/menu");
    let (signal_cancel, signal_receiver) = bounded(1);
    let (load_sender, load_cancel) = bounded(1);
    let mut watchers = MenuWatchers::new();
    let mut control = MenuWatcherControl::new(11);
    assert_eq!(control.start_load(8), None);
    watchers.insert(
        format!("{}\0{}", endpoint.service, endpoint.object_path),
        control,
    );

    let (ready_sender, ready_receiver) = bounded(1);
    let pending_load = async move {
        ready_sender.send(()).await.expect("ready receiver");
        std::future::pending::<Result<(), String>>().await
    };
    let disappearance = async {
        ready_receiver.recv().await.expect("pending load ready");
        let cancelled = cancel_watchers_for_unique_owner(&mut watchers, ":1.8");
        assert_eq!(cancelled, vec![dbus_menu_endpoint_key(&endpoint)]);
        signal_cancel.try_send(()).expect("signal watcher");
        load_sender.try_send(()).expect("pending load");
    };
    let (result, ()) = zbus::block_on(futures_lite::future::zip(
        cancellable_layout_load(pending_load, load_cancel),
        disappearance,
    ));
    assert!(result.is_none());
    assert!(is_empty(&watchers));
    assert!(signal_receiver.try_recv().is_ok());
    assert!(!finish_layout_load(&mut watchers, &endpoint, 8));
}

#[test]
fn watcher_generation_is_reused_until_control_is_recreated() {
    let endpoint = endpoint(":1.9", "/menu");
    let key = dbus_menu_endpoint_key(&endpoint);
    let mut next_generation = 10;
    let mut watchers = MenuWatchers::new();
    let first_generation = allocate_menu_watcher_generation(&mut next_generation);
    watchers.insert(key.clone(), MenuWatcherControl::new(first_generation));

    assert_eq!(watchers.get(&key).expect("watcher").watcher_generation, 10);
    for request_id in [25, 26] {
        let request = LayoutRequest {
            window_id: WindowId(1),
            endpoint: endpoint.clone(),
            request_id,
        };
        assert!(matches!(
            layout_requested(&mut watchers, &request),
            LayoutStep::Load { .. }
        ));
    }
    assert_eq!(
        watchers.get(&key).expect("reused watcher").watcher_generation,
        first_generation
    );
    assert_eq!(next_generation, 11);

    assert!(end_menu_watcher(&mut watchers, &endpoint));
    let second_generation = allocate_menu_watcher_generation(&mut next_generation);
    watchers.insert(key.clone(), MenuWatcherControl::new(second_generation));

    assert_eq!(watchers.get(&key).expect("watcher").watcher_generation, 11);
    assert_ne!(first_generation, second_generation);
}

#[test]
fn same_owner_paths_have_independent_controls_generations_and_cancellation() {
    let endpoint_a = endpoint(":1.9", "/a");
    let endpoint_b = endpoint(":1.9", "/b");
    let key_a = dbus_menu_endpoint_key(&endpoint_a);
    let key_b = dbus_menu_endpoint_key(&endpoint_b);
    let mut watchers = MenuWatchers::new();
    watchers.insert(key_a.clone(), MenuWatcherControl::new(10));
    watchers.insert(key_b.clone(), MenuWatcherControl::new(11));

    assert!(end_menu_watcher(&mut watchers, &endpoint_a));

    assert!(watchers.get(&key_a).is_none());
    assert!(watchers.get(&key_b).is_some());
    assert_eq!(watchers.get(&key_b).expect("watcher B").watcher_generation, 11);
}

#[test]
fn owner_disappearance_removes_all_of_its_paths_but_not_another_owner() {
    let endpoint_a = endpoint(":1.9", "/a");
    let endpoint_b = endpoint(":1.9", "/b");
    let endpoint_c = endpoint(":1.10", "/a");
    let mut watchers = MenuWatchers::new();
    watchers.insert(
        dbus_menu_endpoint_key(&endpoint_a),
        MenuWatcherControl::new(10),
    );
    watchers.insert(
        dbus_menu_endpoint_key(&endpoint_b),
        MenuWatcherControl::new(11),
    );
    watchers.insert(
        dbus_menu_endpoint_key(&endpoint_c),
        MenuWatcherControl::new(12),
    );

    let cancelled = cancel_watchers_for_unique_owner(&mut watchers, ":1.9");

    assert!(cancelled.contains(&dbus_menu_endpoint_key(&endpoint_a)));
    assert!(cancelled.contains(&dbus_menu_endpoint_key(&endpoint_b)));
    assert!(!cancelled.contains(&dbus_menu_endpoint_key(&endpoint_c)));
    assert_eq!(watchers.keys().len(), 1);
    assert_eq!(
        watchers
            .get(&dbus_menu_endpoint_key(&endpoint_c))
            .expect("watcher C")
            .watcher_generation,
        12
    );
}

#[test]
fn a_layout_is_told_of_once_and_only_by_the_load_under_way() {
    let request = |request_id| LayoutRequest {
        window_id: WindowId(3),
        endpoint: endpoint(":1.9", "/menu"),
        request_id,
    };
    let mut watchers = MenuWatchers::new();
    let mut next_generation = 1;
    assert_eq!(
        layout_requested(&mut watchers, &request(1)),
        LayoutStep::Install
    );
    assert_eq!(
        watcher_installed(&mut watchers, &mut next_generation, &request(1)),
        Event::MenuWatcherReady {
            endpoint: MenuSource::DbusMenu(endpoint(":1.9", "/menu")),
            watcher_generation: 1,
            request_id: 1,
        }
    );
    assert_eq!(
        layout_requested(&mut watchers, &request(2)),
        LayoutStep::Load {
            ready: Event::MenuWatcherReady {
                endpoint: MenuSource::DbusMenu(endpoint(":1.9", "/menu")),
                watcher_generation: 1,
                request_id: 2,
            },
            cancelled: Some(1),
        }
    );
    let failed = || Err("no reply".to_owned());
    assert_eq!(layout_finished(&mut watchers, request(1), failed()), None);
    assert_eq!(
        layout_finished(&mut watchers, request(2), failed()),
        Some(Event::MenuLoadFailed {
            window_id: WindowId(3),
            endpoint: MenuSource::DbusMenu(endpoint(":1.9", "/menu")),
            request_id: 2,
            error: "no reply".to_owned(),
        })
    );
    assert_eq!(layout_finished(&mut watchers, request(2), failed()), None);
}

#[test]
fn the_menu_of_a_tray_item_is_told_of_as_such() {
    let request = LayoutRequest {
        window_id: WindowId(u32::MAX),
        endpoint: endpoint(":1.9", "/menu"),
        request_id: 4,
    };
    let mut watchers = MenuWatchers::new();
    let mut next_generation = u64::MAX;
    watcher_installed(&mut watchers, &mut next_generation, &request);
    assert_eq!(next_generation, 0);
    assert_eq!(
        layout_finished(&mut watchers, request, Err("no reply".to_owned())),
        Some(Event::TrayMenuLoadFailed {
            endpoint: endpoint(":1.9", "/menu"),
            request_id: 4,
            error: "no reply".to_owned(),
        })
    );
}
