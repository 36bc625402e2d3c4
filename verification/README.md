# charge_notifier

A console program that writes the overdue charges of an Omie account into a
sheet (with the payment link from Omie or Asaas) and sends WhatsApp reminders
to the customers whose charges fell due on a given day.

- `src/` is the verified library: the decisions and texts of the program
  (retry budgets and waits, batching of rows, the run over one charge, the
  reminder run over the sheet, request URLs and JSON bodies, phone numbers,
  dates, console parsing), each with its contract, and the laws that tie them
  together.
- `app/` is the program around it: the HTTP calls (reqwest), the waits and the
  runtime (tokio), the environment (dotenv), the serde records of the APIs,
  and the console.
- `tests/` runs the library on concrete values.
