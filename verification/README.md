# todo_web

The decision logic of a project/task web application, verified with Verus: for the
screens below, which entries they list or count, in what order, and what a form or a
checkbox writes. Rendering the HTML and talking to SQLite stay outside.

- `src/` — the verified library. `list_filters` (list filters, their query strings and
  reading one back), `calendar` and `dates` (month grids, local days, labels), `nav`
  (sidebar and project switcher), `web` (timezone offset, "+ New" project, errors, HTML
  escaping), `project_events`, `event_list`, `event_forms`, `event_series`, `item_series`
  (the Events and series screens), `main_dashboard` and `dashboard_rows` (the cross-project
  dashboard), `project_dashboard` (its list, calendar grid and day list), `all_projects_tasks`
  (the cross-project Tasks list and its query), `project_calendar` (its grid and day list),
  `main_calendar` (the Home calendar's day list), `toggles` (what a row checkbox writes and
  signals), `redirects`, and
  `storage` (how an item row reads back, and the auto-reminder sync plan). Calendar
  arithmetic and text formatting come from `chrono` through a few trusted wrappers in
  `dates`, `event_forms` and `storage`. The current instant and year are arguments: the
  caller reads the clock.
- `tests/` — tests of the library on concrete values.
- `app/` — the HTTP and SQLite edges: the timezone extractor, error responses, the
  submitted form shapes, the schema, and the transaction that carries out a reminder plan.
