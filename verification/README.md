# parking_gate

A parking-gate server. Barriers publish licence-plate recognition requests
and fee requests over MQTT; the server decodes the camera image, runs a
recogniser, records entering cars and settles parking fees.

- `src/` is the verified library (Verus): the message types, the registry of
  parked cars and fee settlement (`car`), topic routing and the entry record
  (`mqtt`), and the decoding steps of recognition (`ocr`).
- `app/` is the program around it: the MQTT client, the database, the
  recogniser process and the task wiring.
- `tests/` runs the library on concrete values.
